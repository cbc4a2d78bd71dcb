use vstd::prelude::*;

verus! {

/// The kind of release a name is read as.
#[derive(Clone, Copy, Debug, PartialEq, Eq, Structural)]
pub enum ReleaseType {
    Movie,
    Tv,
    Series,
    Season,
}

/// The kind that a lower-case name stands for, if any.
pub open spec fn release_type_named(name: Seq<char>) -> Option<ReleaseType> {
    if name == "movie"@ {
        Some(ReleaseType::Movie)
    } else if name == "tv"@ {
        Some(ReleaseType::Tv)
    } else if name == "series"@ {
        Some(ReleaseType::Series)
    } else if name == "season"@ {
        Some(ReleaseType::Season)
    } else {
        None
    }
}

impl ReleaseType {
    /// The lower-case name of the kind.
    pub open spec fn name_model(self) -> Seq<char> {
        match self {
            ReleaseType::Movie => "movie"@,
            ReleaseType::Tv => "tv"@,
            ReleaseType::Series => "series"@,
            ReleaseType::Season => "season"@,
        }
    }

    /// Whether season and episode numbers apply to this kind.
    pub open spec fn is_episodic(self) -> bool {
        self != ReleaseType::Movie
    }

    pub fn name(self) -> (text: String)
        ensures
            text@ == self.name_model(),
    {
        match self {
            ReleaseType::Movie => String::from_str("movie"),
            ReleaseType::Tv => String::from_str("tv"),
            ReleaseType::Series => String::from_str("series"),
            ReleaseType::Season => String::from_str("season"),
        }
    }

    pub fn from_name(name: &str) -> (kind: Option<ReleaseType>)
        ensures
            kind == release_type_named(name@),
    {
        let given = String::from_str(name);
        if given == String::from_str("movie") {
            Some(ReleaseType::Movie)
        } else if given == String::from_str("tv") {
            Some(ReleaseType::Tv)
        } else if given == String::from_str("series") {
            Some(ReleaseType::Series)
        } else if given == String::from_str("season") {
            Some(ReleaseType::Season)
        } else {
            None
        }
    }
}

/// What one name was parsed into.
#[derive(Clone, Debug, PartialEq, Eq)]
pub struct ParsedRelease {
    pub release: String,
    pub title: String,
    pub episode_title: Option<String>,
    pub group: Option<String>,
    pub year: Option<u32>,
    pub date: Option<String>,
    pub season: Option<u32>,
    pub episode: Option<u32>,
    pub episodes: Vec<u32>,
    pub disc: Option<u32>,
    pub flags: Vec<String>,
    pub source: Option<String>,
    pub format: Option<String>,
    pub resolution: Option<String>,
    pub audio: Option<String>,
    pub device: Option<String>,
    pub os: Option<String>,
    pub version: Option<String>,
    pub language: Vec<(String, String)>,
    pub tmdb_id: Option<String>,
    pub tvdb_id: Option<String>,
    pub imdb_id: Option<String>,
    pub edition: Option<String>,
    pub hdr: Option<String>,
    pub streaming_provider: Option<String>,
    pub release_type: ReleaseType,
}

/// The mathematical content of a `ParsedRelease`: texts as sequences of
/// characters, lists as sequences.
pub struct ReleaseModel {
    pub release: Seq<char>,
    pub title: Seq<char>,
    pub episode_title: Option<Seq<char>>,
    pub group: Option<Seq<char>>,
    pub year: Option<u32>,
    pub date: Option<Seq<char>>,
    pub season: Option<u32>,
    pub episode: Option<u32>,
    pub episodes: Seq<u32>,
    pub disc: Option<u32>,
    pub flags: Seq<Seq<char>>,
    pub source: Option<Seq<char>>,
    pub format: Option<Seq<char>>,
    pub resolution: Option<Seq<char>>,
    pub audio: Option<Seq<char>>,
    pub device: Option<Seq<char>>,
    pub os: Option<Seq<char>>,
    pub version: Option<Seq<char>>,
    pub language: Seq<(Seq<char>, Seq<char>)>,
    pub tmdb_id: Option<Seq<char>>,
    pub tvdb_id: Option<Seq<char>>,
    pub imdb_id: Option<Seq<char>>,
    pub edition: Option<Seq<char>>,
    pub hdr: Option<Seq<char>>,
    pub streaming_provider: Option<Seq<char>>,
    pub release_type: ReleaseType,
}

impl View for ParsedRelease {
    type V = ReleaseModel;

    open spec fn view(&self) -> ReleaseModel {
        ReleaseModel {
            release: self.release@,
            title: self.title@,
            episode_title: self.episode_title.deep_view(),
            group: self.group.deep_view(),
            year: self.year,
            date: self.date.deep_view(),
            season: self.season,
            episode: self.episode,
            episodes: self.episodes@,
            disc: self.disc,
            flags: self.flags.deep_view(),
            source: self.source.deep_view(),
            format: self.format.deep_view(),
            resolution: self.resolution.deep_view(),
            audio: self.audio.deep_view(),
            device: self.device.deep_view(),
            os: self.os.deep_view(),
            version: self.version.deep_view(),
            language: self.language.deep_view(),
            tmdb_id: self.tmdb_id.deep_view(),
            tvdb_id: self.tvdb_id.deep_view(),
            imdb_id: self.imdb_id.deep_view(),
            edition: self.edition.deep_view(),
            hdr: self.hdr.deep_view(),
            streaming_provider: self.streaming_provider.deep_view(),
            release_type: self.release_type,
        }
    }
}

/// The first year that a release can carry.
pub const MIN_YEAR: u32 = 1900;

/// The last year that a release can carry.
pub const MAX_YEAR: u32 = 2099;

/// A year is plausible where it lies from `MIN_YEAR` to `MAX_YEAR`.
pub open spec fn plausible_year(year: u32) -> bool {
    MIN_YEAR <= year <= MAX_YEAR
}

/// A year where it is there and plausible, nothing otherwise.
pub open spec fn plausible_or_unset(year: Option<u32>) -> Option<u32> {
    if year.is_some() && plausible_year(year.unwrap()) {
        year
    } else {
        None
    }
}

/// Each element is smaller than the one after it.
pub open spec fn strictly_ascending(s: Seq<u32>) -> bool {
    forall|i: int, j: int| 0 <= i < j < s.len() ==> s[i] < s[j]
}

/// The keys of a sequence of pairs, in order.
pub open spec fn keys_of(pairs: Seq<(Seq<char>, Seq<char>)>) -> Seq<Seq<char>> {
    Seq::new(pairs.len(), |i: int| pairs[i].0)
}

impl ReleaseModel {
    /// The rules every finished record obeys: the year is plausible, the
    /// episode span ascends without repeats and `episode` is its first
    /// (smallest) element, no flag and no language code occurs twice, and a
    /// movie carries no season or episode numbers.
    pub open spec fn well_formed(self) -> bool {
        &&& self.year.is_some() ==> plausible_year(self.year.unwrap())
        &&& strictly_ascending(self.episodes)
        &&& self.episodes.len() > 0 ==> self.episode == Some(self.episodes[0])
        &&& self.flags.no_duplicates()
        &&& keys_of(self.language).no_duplicates()
        &&& !self.release_type.is_episodic() ==> self.season.is_none() && self.episode.is_none()
            && self.episodes.len() == 0
    }
}

/// The record of a name in which nothing but a title was recognised.
pub open spec fn title_only_model(
    release: Seq<char>,
    title: Seq<char>,
    release_type: ReleaseType,
) -> ReleaseModel {
    ReleaseModel {
        release,
        title,
        episode_title: None,
        group: None,
        year: None,
        date: None,
        season: None,
        episode: None,
        episodes: Seq::empty(),
        disc: None,
        flags: Seq::empty(),
        source: None,
        format: None,
        resolution: None,
        audio: None,
        device: None,
        os: None,
        version: None,
        language: Seq::empty(),
        tmdb_id: None,
        tvdb_id: None,
        imdb_id: None,
        edition: None,
        hdr: None,
        streaming_provider: None,
        release_type,
    }
}

impl ParsedRelease {
    /// A record with a title and every other field unset.
    pub fn title_only(release: &str, title: &str, release_type: ReleaseType) -> (out: ParsedRelease)
        ensures
            out@ == title_only_model(release@, title@, release_type),
            out@.well_formed(),
    {
        let out = ParsedRelease {
            release: String::from_str(release),
            title: String::from_str(title),
            episode_title: None,
            group: None,
            year: None,
            date: None,
            season: None,
            episode: None,
            episodes: Vec::new(),
            disc: None,
            flags: Vec::new(),
            source: None,
            format: None,
            resolution: None,
            audio: None,
            device: None,
            os: None,
            version: None,
            language: Vec::new(),
            tmdb_id: None,
            tvdb_id: None,
            imdb_id: None,
            edition: None,
            hdr: None,
            streaming_provider: None,
            release_type,
        };
        proof {
            assert(out@.flags =~= Seq::empty());
            assert(out@.language =~= Seq::empty());
            assert(keys_of(out@.language) =~= Seq::empty());
        }
        out
    }
}

/// A leaf parsed together with its parent directory.
#[derive(Clone, Debug, PartialEq, Eq)]
pub struct PathInfo {
    pub directory: Option<ParsedRelease>,
    pub season: Option<u32>,
    pub file: ParsedRelease,
    pub full_path: String,
}

/// The mathematical content of a `PathInfo`.
pub struct PathModel {
    pub directory: Option<ReleaseModel>,
    pub season: Option<u32>,
    pub file: ReleaseModel,
    pub full_path: Seq<char>,
}

impl View for PathInfo {
    type V = PathModel;

    open spec fn view(&self) -> PathModel {
        PathModel {
            directory: match self.directory {
                Some(d) => Some(d@),
                None => None,
            },
            season: self.season,
            file: self.file@,
            full_path: self.full_path@,
        }
    }
}

} // verus!
