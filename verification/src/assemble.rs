use vstd::prelude::*;
use crate::types::{
    keys_of, plausible_or_unset, strictly_ascending, ParsedRelease, ReleaseModel, ReleaseType,
    MAX_YEAR, MIN_YEAR,
};

verus! {

/// `out` holds the numbers of `raw`, each once, smallest first.
pub open spec fn is_ascending_form_of(out: Seq<u32>, raw: Seq<u32>) -> bool {
    &&& strictly_ascending(out)
    &&& forall|x: u32| out.contains(x) <==> raw.contains(x)
}

/// The texts of `s` in order, each kept where it first occurs.
pub open spec fn without_repeats(s: Seq<Seq<char>>) -> Seq<Seq<char>>
    decreases s.len(),
{
    if s.len() == 0 {
        Seq::empty()
    } else {
        let kept = without_repeats(s.drop_last());
        if kept.contains(s.last()) {
            kept
        } else {
            kept.push(s.last())
        }
    }
}

/// The pairs of `s` in order, without those whose key an earlier pair has.
pub open spec fn first_per_key(s: Seq<(Seq<char>, Seq<char>)>) -> Seq<(Seq<char>, Seq<char>)>
    decreases s.len(),
{
    if s.len() == 0 {
        Seq::empty()
    } else {
        let kept = first_per_key(s.drop_last());
        if keys_of(kept).contains(s.last().0) {
            kept
        } else {
            kept.push(s.last())
        }
    }
}

/// Sorts an episode span and drops repeated numbers.
pub fn normalize_episodes(raw: &Vec<u32>) -> (out: Vec<u32>)
    ensures
        is_ascending_form_of(out@, raw@),
        strictly_ascending(raw@) ==> out@ == raw@,
{
    let mut out: Vec<u32> = Vec::new();
    let mut i: usize = 0;
    while i < raw.len()
        invariant
            i <= raw.len(),
            is_ascending_form_of(out@, raw@.take(i as int)),
            strictly_ascending(raw@) ==> out@ == raw@.take(i as int),
        decreases raw.len() - i,
    {
        let x: u32 = raw[i];
        let mut p: usize = 0;
        while p < out.len() && out[p] < x
            invariant
                p <= out.len(),
                forall|k: int| 0 <= k < p ==> out[k] < x,
            decreases out.len() - p,
        {
            p += 1;
        }
        let ghost before = out@;
        let ghost seen = raw@.take(i as int);
        let ghost next = raw@.take(i as int + 1);
        assert(next.drop_last() =~= seen);
        assert(next.last() == x);
        assert(forall|y: u32| next.contains(y) <==> seen.contains(y) || y == x) by {
            assert forall|y: u32| next.contains(y) implies seen.contains(y) || y == x by {
                let k = choose|k: int| 0 <= k < next.len() && next[k] == y;
                if k < i {
                    assert(seen[k] == y);
                }
            }
            assert forall|y: u32| seen.contains(y) || y == x implies next.contains(y) by {
                if y == x {
                    assert(next[i as int] == y);
                } else {
                    let k = choose|k: int| 0 <= k < seen.len() && seen[k] == y;
                    assert(next[k] == y);
                }
            }
        }
        if p == out.len() || out[p] != x {
            out.insert(p, x);
            proof {
                let after = out@;
                assert(after.len() == before.len() + 1);
                assert(forall|k: int| 0 <= k < p ==> after[k] == before[k]);
                assert(after[p as int] == x);
                assert(forall|k: int| p < k < after.len() ==> after[k] == before[k - 1]);
                assert(forall|k: int| p <= k < before.len() ==> before[k] > x) by {
                    assert forall|k: int| p <= k < before.len() implies before[k] > x by {
                        if k > p {
                            assert(before[p as int] < before[k]);
                        }
                    }
                }
                assert(strictly_ascending(after));
                assert forall|y: u32| after.contains(y) <==> next.contains(y) by {
                    if after.contains(y) {
                        let k = choose|k: int| 0 <= k < after.len() && after[k] == y;
                        if k < p {
                            assert(before[k] == y);
                            assert(before.contains(y));
                        } else if k > p {
                            assert(before[k - 1] == y);
                            assert(before.contains(y));
                        }
                    }
                    if next.contains(y) {
                        if y == x {
                            assert(after[p as int] == y);
                        } else {
                            assert(before.contains(y));
                            let k = choose|k: int| 0 <= k < before.len() && before[k] == y;
                            if k < p {
                                assert(after[k] == y);
                            } else {
                                assert(after[k + 1] == y);
                            }
                        }
                    }
                }
                if strictly_ascending(raw@) {
                    if p < before.len() {
                        assert(raw@[p as int] < raw@[i as int]);
                    }
                    assert(after =~= next);
                }
            }
        } else {
            proof {
                assert(before[p as int] == x);
                assert(before.contains(x));
                if strictly_ascending(raw@) {
                    assert(raw@[p as int] < raw@[i as int]);
                }
            }
        }
        i += 1;
    }
    assert(raw@.take(i as int) =~= raw@);
    out
}

fn has_text(list: &Vec<String>, text: &String) -> (found: bool)
    ensures
        found == list.deep_view().contains(text@),
{
    let mut j: usize = 0;
    while j < list.len()
        invariant
            j <= list.len(),
            forall|k: int| 0 <= k < j ==> list.deep_view()[k] != text@,
        decreases list.len() - j,
    {
        if list[j] == *text {
            assert(list.deep_view()[j as int] == text@);
            return true;
        }
        j += 1;
    }
    false
}

fn has_key(list: &Vec<(String, String)>, key: &String) -> (found: bool)
    ensures
        found == keys_of(list.deep_view()).contains(key@),
{
    let mut j: usize = 0;
    while j < list.len()
        invariant
            j <= list.len(),
            forall|k: int| 0 <= k < j ==> keys_of(list.deep_view())[k] != key@,
        decreases list.len() - j,
    {
        if list[j].0 == *key {
            assert(keys_of(list.deep_view())[j as int] == key@);
            return true;
        }
        j += 1;
    }
    false
}

/// Drops every flag that an earlier flag equals.
pub fn dedup_flags(raw: &Vec<String>) -> (out: Vec<String>)
    ensures
        out.deep_view() == without_repeats(raw.deep_view()),
{
    let mut out: Vec<String> = Vec::new();
    let mut i: usize = 0;
    while i < raw.len()
        invariant
            i <= raw.len(),
            out.deep_view() == without_repeats(raw.deep_view().take(i as int)),
        decreases raw.len() - i,
    {
        let ghost kept = out.deep_view();
        let ghost next = raw.deep_view().take(i as int + 1);
        assert(next.drop_last() =~= raw.deep_view().take(i as int));
        assert(next.last() == raw[i as int]@);
        if !has_text(&out, &raw[i]) {
            out.push(raw[i].clone());
            assert(out.deep_view() =~= kept.push(raw[i as int]@));
        }
        i += 1;
    }
    assert(raw.deep_view().take(i as int) =~= raw.deep_view());
    out
}

/// Drops every language entry whose code an earlier entry has.
pub fn dedup_language(raw: &Vec<(String, String)>) -> (out: Vec<(String, String)>)
    ensures
        out.deep_view() == first_per_key(raw.deep_view()),
{
    let mut out: Vec<(String, String)> = Vec::new();
    let mut i: usize = 0;
    while i < raw.len()
        invariant
            i <= raw.len(),
            out.deep_view() == first_per_key(raw.deep_view().take(i as int)),
        decreases raw.len() - i,
    {
        let ghost kept = out.deep_view();
        let ghost next = raw.deep_view().take(i as int + 1);
        assert(next.drop_last() =~= raw.deep_view().take(i as int));
        assert(next.last() == raw[i as int].deep_view());
        if !has_key(&out, &raw[i].0) {
            let code = raw[i].0.clone();
            let name = raw[i].1.clone();
            out.push((code, name));
            assert(out.deep_view() =~= kept.push(raw[i as int].deep_view()));
        }
        i += 1;
    }
    assert(raw.deep_view().take(i as int) =~= raw.deep_view());
    out
}

/// What `assemble` makes of a raw record: a year that is not plausible
/// unset, the episode span in ascending form (empty for a movie), `episode`
/// its first element where there is one, season and episode cleared for a
/// movie, flags and language codes kept where they first occur, every other
/// field as it was.
pub open spec fn is_assembled_from(out: ReleaseModel, raw: ReleaseModel) -> bool {
    let episodic = raw.release_type.is_episodic();
    &&& out.year == plausible_or_unset(raw.year)
    &&& is_ascending_form_of(
        out.episodes,
        if episodic {
            raw.episodes
        } else {
            Seq::empty()
        },
    )
    &&& out.episode == (if !episodic {
        None
    } else if out.episodes.len() > 0 {
        Some(out.episodes[0])
    } else {
        raw.episode
    })
    &&& out.season == (if episodic {
        raw.season
    } else {
        None
    })
    &&& out.flags == without_repeats(raw.flags)
    &&& out.language == first_per_key(raw.language)
    &&& out == (ReleaseModel {
        year: out.year,
        episodes: out.episodes,
        episode: out.episode,
        season: out.season,
        flags: out.flags,
        language: out.language,
        ..raw
    })
}

/// Turns the raw output of classification into a finished record.
pub fn assemble(raw: ParsedRelease) -> (out: ParsedRelease)
    ensures
        is_assembled_from(out@, raw@),
        out@.well_formed(),
        raw@.well_formed() ==> out@ == raw@,
{
    let episodic = match raw.release_type {
        ReleaseType::Movie => false,
        _ => true,
    };
    let episodes = if episodic {
        normalize_episodes(&raw.episodes)
    } else {
        Vec::new()
    };
    let episode = if !episodic {
        None
    } else if episodes.len() > 0 {
        Some(episodes[0])
    } else {
        raw.episode
    };
    let season = if episodic {
        raw.season
    } else {
        None
    };
    let year = match raw.year {
        Some(y) => if MIN_YEAR <= y && y <= MAX_YEAR {
            Some(y)
        } else {
            None
        },
        None => None,
    };
    let flags = dedup_flags(&raw.flags);
    let language = dedup_language(&raw.language);
    proof {
        lemma_without_repeats(raw@.flags);
        lemma_first_per_key(raw@.language);
        if raw@.well_formed() {
            assert(episodes@ =~= raw@.episodes);
        }
    }
    ParsedRelease {
        release: raw.release,
        title: raw.title,
        episode_title: raw.episode_title,
        group: raw.group,
        year,
        date: raw.date,
        season,
        episode,
        episodes,
        disc: raw.disc,
        flags,
        source: raw.source,
        format: raw.format,
        resolution: raw.resolution,
        audio: raw.audio,
        device: raw.device,
        os: raw.os,
        version: raw.version,
        language,
        tmdb_id: raw.tmdb_id,
        tvdb_id: raw.tvdb_id,
        imdb_id: raw.imdb_id,
        edition: raw.edition,
        hdr: raw.hdr,
        streaming_provider: raw.streaming_provider,
        release_type: raw.release_type,
    }
}

/// `without_repeats` holds no text twice, holds exactly the texts of its
/// argument, and leaves a list without repeats as it is.
pub proof fn lemma_without_repeats(s: Seq<Seq<char>>)
    ensures
        without_repeats(s).no_duplicates(),
        forall|x: Seq<char>| without_repeats(s).contains(x) <==> s.contains(x),
        s.no_duplicates() ==> without_repeats(s) == s,
    decreases s.len(),
{
    if s.len() > 0 {
        let head = s.drop_last();
        let kept = without_repeats(head);
        lemma_without_repeats(head);
        assert(s =~= head.push(s.last()));
        assert forall|x: Seq<char>| s.contains(x) <==> head.contains(x) || x == s.last() by {
            if s.contains(x) {
                let k = choose|k: int| 0 <= k < s.len() && s[k] == x;
                if k < head.len() {
                    assert(head[k] == x);
                }
            }
            if head.contains(x) {
                let k = choose|k: int| 0 <= k < head.len() && head[k] == x;
                assert(s[k] == x);
            }
            if x == s.last() {
                assert(s[s.len() - 1] == x);
            }
        }
        if s.no_duplicates() {
            assert(head.no_duplicates());
            if head.contains(s.last()) {
                let k = choose|k: int| 0 <= k < head.len() && head[k] == s.last();
                assert(s[k] == s[s.len() - 1]);
            }
        }
        if !kept.contains(s.last()) {
            let grown = kept.push(s.last());
            assert forall|x: Seq<char>| grown.contains(x) <==> kept.contains(x) || x == s.last() by {
                if grown.contains(x) {
                    let k = choose|k: int| 0 <= k < grown.len() && grown[k] == x;
                    if k < kept.len() {
                        assert(kept[k] == x);
                    }
                }
                if kept.contains(x) {
                    let k = choose|k: int| 0 <= k < kept.len() && kept[k] == x;
                    assert(grown[k] == x);
                }
                if x == s.last() {
                    assert(grown[grown.len() - 1] == x);
                }
            }
            assert forall|i: int, j: int| 0 <= i < grown.len() && 0 <= j < grown.len() && i != j
                implies grown[i] != grown[j] by {
                if i == kept.len() {
                    assert(kept[j] == grown[j]);
                } else if j == kept.len() {
                    assert(kept[i] == grown[i]);
                }
            }
        }
    }
}

/// `first_per_key` holds no code twice, holds exactly the codes of its
/// argument, takes every pair from its argument, and leaves a list without
/// repeated codes as it is.
pub proof fn lemma_first_per_key(s: Seq<(Seq<char>, Seq<char>)>)
    ensures
        keys_of(first_per_key(s)).no_duplicates(),
        forall|x: Seq<char>| keys_of(first_per_key(s)).contains(x) <==> keys_of(s).contains(x),
        forall|p: (Seq<char>, Seq<char>)| first_per_key(s).contains(p) ==> s.contains(p),
        keys_of(s).no_duplicates() ==> first_per_key(s) == s,
    decreases s.len(),
{
    if s.len() > 0 {
        let head = s.drop_last();
        let kept = first_per_key(head);
        let key = s.last().0;
        lemma_first_per_key(head);
        assert(s =~= head.push(s.last()));
        assert(keys_of(s) =~= keys_of(head).push(key));
        assert forall|x: Seq<char>| keys_of(s).contains(x) <==> keys_of(head).contains(x) || x
            == key by {
            if keys_of(s).contains(x) {
                let k = choose|k: int| 0 <= k < keys_of(s).len() && keys_of(s)[k] == x;
                if k < head.len() {
                    assert(keys_of(head)[k] == x);
                }
            }
            if keys_of(head).contains(x) {
                let k = choose|k: int| 0 <= k < keys_of(head).len() && keys_of(head)[k] == x;
                assert(keys_of(s)[k] == x);
            }
            if x == key {
                assert(keys_of(s)[s.len() - 1] == x);
            }
        }
        assert forall|p: (Seq<char>, Seq<char>)| head.contains(p) implies s.contains(p) by {
            let k = choose|k: int| 0 <= k < head.len() && head[k] == p;
            assert(s[k] == p);
        }
        assert(s.contains(s.last())) by {
            assert(s[s.len() - 1] == s.last());
        }
        if keys_of(s).no_duplicates() {
            assert forall|i: int, j: int| 0 <= i < head.len() && 0 <= j < head.len() && i != j
                implies keys_of(head)[i] != keys_of(head)[j] by {
                assert(keys_of(s)[i] != keys_of(s)[j]);
            }
            if keys_of(head).contains(key) {
                let k = choose|k: int| 0 <= k < keys_of(head).len() && keys_of(head)[k] == key;
                assert(keys_of(s)[k] == keys_of(s)[s.len() - 1]);
            }
        }
        if !keys_of(kept).contains(key) {
            let grown = kept.push(s.last());
            assert(keys_of(grown) =~= keys_of(kept).push(key));
            assert forall|x: Seq<char>| keys_of(grown).contains(x) <==> keys_of(kept).contains(x)
                || x == key by {
                if keys_of(grown).contains(x) {
                    let k = choose|k: int| 0 <= k < keys_of(grown).len() && keys_of(grown)[k] == x;
                    if k < kept.len() {
                        assert(keys_of(kept)[k] == x);
                    }
                }
                if keys_of(kept).contains(x) {
                    let k = choose|k: int| 0 <= k < keys_of(kept).len() && keys_of(kept)[k] == x;
                    assert(keys_of(grown)[k] == x);
                }
                if x == key {
                    assert(keys_of(grown)[grown.len() - 1] == x);
                }
            }
            assert forall|i: int, j: int|
                0 <= i < keys_of(grown).len() && 0 <= j < keys_of(grown).len() && i != j
                implies keys_of(grown)[i] != keys_of(grown)[j] by {
                if i == kept.len() {
                    assert(keys_of(kept)[j] == keys_of(grown)[j]);
                } else if j == kept.len() {
                    assert(keys_of(kept)[i] == keys_of(grown)[i]);
                } else {
                    assert(keys_of(kept)[i] == keys_of(grown)[i]);
                    assert(keys_of(kept)[j] == keys_of(grown)[j]);
                }
            }
            assert forall|p: (Seq<char>, Seq<char>)| grown.contains(p) implies s.contains(p) by {
                let k = choose|k: int| 0 <= k < grown.len() && grown[k] == p;
                if k < kept.len() {
                    assert(kept[k] == p);
                    assert(kept.contains(p));
                }
            }
        }
    }
}

/// Two ascending sequences that hold the same numbers are one sequence.
pub proof fn lemma_ascending_same_elements(a: Seq<u32>, b: Seq<u32>)
    requires
        strictly_ascending(a),
        strictly_ascending(b),
        forall|x: u32| a.contains(x) <==> b.contains(x),
    ensures
        a == b,
    decreases a.len(),
{
    if a.len() == 0 {
        if b.len() > 0 {
            assert(b.contains(b[0]));
            assert(a.contains(b[0]));
        }
        assert(a =~= b);
    } else {
        let top = a.last();
        assert(a.contains(top)) by {
            assert(a[a.len() - 1] == top);
        }
        assert(b.contains(top));
        let k = choose|k: int| 0 <= k < b.len() && b[k] == top;
        if k < b.len() - 1 {
            assert(b[k] < b.last());
            assert(b.contains(b.last())) by {
                assert(b[b.len() - 1] == b.last());
            }
            let j = choose|j: int| 0 <= j < a.len() && a[j] == b.last();
            if j < a.len() - 1 {
                assert(a[j] < a[a.len() - 1]);
            }
        }
        assert(b.last() == top);
        let a0 = a.drop_last();
        let b0 = b.drop_last();
        assert forall|x: u32| a0.contains(x) <==> b0.contains(x) by {
            if a0.contains(x) {
                let i = choose|i: int| 0 <= i < a0.len() && a0[i] == x;
                assert(a[i] == x && a[i] < a[a.len() - 1]);
                assert(a.contains(x));
                let j = choose|j: int| 0 <= j < b.len() && b[j] == x;
                assert(b0[j] == x);
            }
            if b0.contains(x) {
                let i = choose|i: int| 0 <= i < b0.len() && b0[i] == x;
                assert(b[i] == x && b[i] < b[b.len() - 1]);
                assert(b.contains(x));
                let j = choose|j: int| 0 <= j < a.len() && a[j] == x;
                assert(a0[j] == x);
            }
        }
        lemma_ascending_same_elements(a0, b0);
        assert(a =~= a0.push(top));
        assert(b =~= b0.push(top));
    }
}

/// A raw record has one finished form: two records assembled from the same
/// raw record agree in every field.
pub proof fn lemma_assembled_form_unique(a: ReleaseModel, b: ReleaseModel, raw: ReleaseModel)
    requires
        is_assembled_from(a, raw),
        is_assembled_from(b, raw),
    ensures
        a == b,
{
    lemma_ascending_same_elements(a.episodes, b.episodes);
}

/// In a finished record with a non-empty episode span, `episode` is the
/// smallest number of the span.
pub proof fn lemma_episode_is_smallest(r: ReleaseModel)
    requires
        r.well_formed(),
        r.episodes.len() > 0,
    ensures
        r.episode == Some(r.episodes[0]),
        r.episodes.contains(r.episodes[0]),
        forall|i: int| 0 <= i < r.episodes.len() ==> r.episodes[0] <= #[trigger] r.episodes[i],
{
    assert(r.episodes[0] == r.episodes[0]);
}

/// In a finished record no language code stands for two entries: entries
/// at different places have different codes.
pub proof fn lemma_language_codes_distinct(r: ReleaseModel, i: int, j: int)
    requires
        r.well_formed(),
        0 <= i < r.language.len(),
        0 <= j < r.language.len(),
        i != j,
    ensures
        r.language[i].0 != r.language[j].0,
{
    assert(keys_of(r.language)[i] != keys_of(r.language)[j]);
}

} // verus!
