//! The configuration of the server, and how the values given on the command
//! line become the values the server runs with.

use crate::duration::{
    decimal, duration_tokens, interval_of, invalid_duration_message, lemma_oversized_count_fails,
    parse_interval,
};
use crate::errors::Error;
use crate::headers::{
    header_warnings, invalid_header_warnings, lemma_parsed_headers_nonempty, parse_headers,
    parsed_headers,
};
use crate::hosts::{normalize_hosts, normalized_hosts};
use crate::text::{lemma_trimmed_idempotent, trimmed};
use crate::tiles::{Tilesets, TilesetsView};
use vstd::prelude::*;
use vstd::string::StringExecFns;

verus! {

/// The configuration of the server. The command line fills in the values it
/// names; `post_parse` works out the rest from them: `tilesets`, `headers`
/// and `real_reload_interval`.
#[derive(Debug, Clone)]
pub struct Args {
    /// The directory that holds the tiles.
    pub directory: String,
    /// The tilesets to serve.
    pub tilesets: Option<Tilesets>,
    /// The port to listen on.
    pub port: u16,
    /// The hosts that requests may name: `*` stands for every host, and
    /// `.<domain>` for every subdomain of the domain.
    pub allowed_hosts: Vec<String>,
    /// The headers to add to responses, each as given: `name: value`.
    pub header: Vec<String>,
    /// The headers to add to responses, each as its name and its value.
    pub headers: Vec<(String, String)>,
    /// Whether the preview map is switched off.
    pub disable_preview: bool,
    /// Whether a request may ask for the tilesets to be reloaded.
    pub allow_reload_api: bool,
    /// Whether a signal may ask for the tilesets to be reloaded.
    pub allow_reload_signal: bool,
    /// How often the tilesets are reloaded, as given: a text such as `1h30m`.
    pub reload_interval: Option<String>,
    /// How often the tilesets are reloaded, in seconds.
    pub real_reload_interval: Option<u64>,
    /// Whether the tiles directory is left unwatched.
    pub disable_watcher: bool,
}

/// What an `Args` says.
pub struct ArgsView {
    pub directory: Seq<char>,
    pub tilesets: Option<TilesetsView>,
    pub port: u16,
    pub allowed_hosts: Seq<Seq<char>>,
    pub header: Seq<Seq<char>>,
    pub headers: Seq<(Seq<char>, Seq<char>)>,
    pub disable_preview: bool,
    pub allow_reload_api: bool,
    pub allow_reload_signal: bool,
    pub reload_interval: Option<Seq<char>>,
    pub real_reload_interval: Option<u64>,
    pub disable_watcher: bool,
}

impl View for Args {
    type V = ArgsView;

    open spec fn view(&self) -> ArgsView {
        ArgsView {
            directory: self.directory@,
            tilesets: match self.tilesets {
                Some(tilesets) => Some(tilesets@),
                None => None,
            },
            port: self.port,
            allowed_hosts: self.allowed_hosts.deep_view(),
            header: self.header.deep_view(),
            headers: self.headers.deep_view(),
            disable_preview: self.disable_preview,
            allow_reload_api: self.allow_reload_api,
            allow_reload_signal: self.allow_reload_signal,
            reload_interval: self.reload_interval.deep_view(),
            real_reload_interval: self.real_reload_interval,
            disable_watcher: self.disable_watcher,
        }
    }
}

/// The message of the error for a tiles directory that is none.
pub open spec fn missing_directory_message(directory: Seq<char>) -> Seq<char> {
    "Directory does not exists: "@ + directory
}

/// The error for a tiles directory that is none.
pub fn missing_directory(directory: &str) -> (e: Error)
    ensures
        e.message() == missing_directory_message(directory@),
{
    Error::Config(String::from_str("Directory does not exists: ").concat(directory))
}

impl ArgsView {
    /// The configuration in which nothing is given: no text, no entry, no
    /// flag, port 0.
    pub open spec fn blank() -> ArgsView {
        ArgsView {
            directory: Seq::empty(),
            tilesets: None,
            port: 0,
            allowed_hosts: Seq::empty(),
            header: Seq::empty(),
            headers: Seq::empty(),
            disable_preview: false,
            allow_reload_api: false,
            allow_reload_signal: false,
            reload_interval: None,
            real_reload_interval: None,
            disable_watcher: false,
        }
    }

    /// The reload interval in seconds: none where none was given, else
    /// what the text given stands for, or the message of the error where
    /// it stands for no number of seconds.
    pub open spec fn interval(self) -> Result<Option<u64>, Seq<char>> {
        match self.reload_interval {
            None => Ok(None),
            Some(text) => match interval_of(duration_tokens(text)) {
                Ok(seconds) => Ok(Some(seconds)),
                Err(message) => Err(message),
            },
        }
    }

    /// The configuration that the server runs with, worked out from the
    /// values given, or the message of the error that refuses them.
    /// `directory_is_dir` says whether the tiles directory exists and is a
    /// directory.
    pub open spec fn resolved(self, directory_is_dir: bool) -> Result<ArgsView, Seq<char>> {
        if !directory_is_dir {
            Err(missing_directory_message(self.directory))
        } else {
            match self.interval() {
                Err(message) => Err(message),
                Ok(seconds) => Ok(
                    ArgsView {
                        tilesets: Some(TilesetsView::rooted_at(self.directory)),
                        allowed_hosts: normalized_hosts(self.allowed_hosts),
                        headers: parsed_headers(self.header),
                        real_reload_interval: seconds,
                        ..self
                    },
                ),
            }
        }
    }

    /// Whether this is a configuration to run with: its tilesets are those
    /// under its tiles directory, its allowed hosts have no white space
    /// around them, its headers are those read from the texts given, and
    /// its reload interval in seconds is the one that the text given
    /// stands for.
    pub open spec fn is_resolved(self) -> bool {
        &&& self.tilesets == Some(TilesetsView::rooted_at(self.directory))
        &&& forall|i: int|
            0 <= i < self.allowed_hosts.len() ==> trimmed(#[trigger] self.allowed_hosts[i])
                == self.allowed_hosts[i]
        &&& self.headers == parsed_headers(self.header)
        &&& self.interval() == Ok::<Option<u64>, Seq<char>>(self.real_reload_interval)
    }

    /// The warnings that go with `resolved`: one for each text given as a
    /// header that is none. A missing tiles directory ends the work before
    /// any header is looked at.
    pub open spec fn warnings(self, directory_is_dir: bool) -> Seq<Seq<char>> {
        if directory_is_dir {
            header_warnings(self.header)
        } else {
            Seq::empty()
        }
    }
}

impl Default for Args {
    fn default() -> (args: Args)
        ensures
            args@ == ArgsView::blank(),
    {
        let args = Args {
            directory: String::new(),
            tilesets: None,
            port: 0,
            allowed_hosts: Vec::new(),
            header: Vec::new(),
            headers: Vec::new(),
            disable_preview: false,
            allow_reload_api: false,
            allow_reload_signal: false,
            reload_interval: None,
            real_reload_interval: None,
            disable_watcher: false,
        };
        assert(args.header.deep_view() =~= Seq::empty());
        assert(args.headers.deep_view() =~= Seq::empty());
        args
    }
}

impl Args {
    /// Whether `outcome` is what `post_parse` gives for this configuration.
    pub open spec fn resolves_to(self, directory_is_dir: bool, outcome: Result<Args, Error>) -> bool {
        match outcome {
            Ok(resolved) => self@.resolved(directory_is_dir) == Ok::<ArgsView, Seq<char>>(
                resolved@,
            ),
            Err(e) => self@.resolved(directory_is_dir) == Err::<ArgsView, Seq<char>>(e.message()),
        }
    }

    /// Works out the configuration to run with from the values that the
    /// command line gave. `directory_is_dir` says whether the tiles
    /// directory exists and is a directory.
    ///
    /// A missing tiles directory and a reload interval that stands for no
    /// number of seconds are refused. Otherwise the tilesets are those
    /// under the tiles directory, the allowed hosts lose the white space
    /// around them, the headers are read from the texts given, those that
    /// are none left out, and the reload interval is counted in seconds.
    pub fn post_parse(self, directory_is_dir: bool) -> (outcome: Result<Args, Error>)
        ensures
            self.resolves_to(directory_is_dir, outcome),
            !directory_is_dir ==> outcome is Err && outcome->Err_0.message()
                == missing_directory_message(self.directory@),
            outcome is Ok <==> directory_is_dir && self@.interval() is Ok,
            outcome matches Ok(resolved) ==> {
                &&& resolved@.is_resolved()
                &&& resolved.tilesets is Some
                &&& resolved.tilesets->0@ == TilesetsView::rooted_at(self.directory@)
                &&& resolved.allowed_hosts.deep_view() == normalized_hosts(
                    self.allowed_hosts.deep_view(),
                )
                &&& resolved.headers.deep_view() == parsed_headers(self.header.deep_view())
                &&& forall|i: int|
                    0 <= i < resolved.headers@.len() ==> {
                        &&& (#[trigger] resolved.headers@[i]).0@.len() > 0
                        &&& resolved.headers@[i].1@.len() > 0
                    }
                &&& resolved.real_reload_interval is Some <==> self.reload_interval is Some
            },
    {
        if !directory_is_dir {
            return Err(missing_directory(self.directory.as_str()));
        }
        proof {
            lemma_resolved_is_resolved(self@, directory_is_dir);
        }
        let tilesets = Tilesets::rooted_at(self.directory.clone());
        let allowed_hosts = normalize_hosts(&self.allowed_hosts);
        let headers = parse_headers(&self.header);
        proof {
            lemma_parsed_headers_nonempty(self.header.deep_view());
            assert forall|i: int| 0 <= i < headers@.len() implies {
                &&& (#[trigger] headers@[i]).0@.len() > 0
                &&& headers@[i].1@.len() > 0
            } by {
                assert(headers.deep_view()[i] == (headers@[i].0@, headers@[i].1@));
            }
        }
        let real_reload_interval = match &self.reload_interval {
            Some(text) => match parse_interval(text.as_str()) {
                Ok(seconds) => Some(seconds),
                Err(e) => {
                    return Err(e);
                },
            },
            None => None,
        };
        Ok(
            Args {
                directory: self.directory,
                tilesets: Some(tilesets),
                port: self.port,
                allowed_hosts,
                header: self.header,
                headers,
                disable_preview: self.disable_preview,
                allow_reload_api: self.allow_reload_api,
                allow_reload_signal: self.allow_reload_signal,
                reload_interval: self.reload_interval,
                real_reload_interval,
                disable_watcher: self.disable_watcher,
            },
        )
    }

    /// The warnings that go with `post_parse`: one for each text given as a
    /// header that is none, in the order given.
    pub fn warnings(&self, directory_is_dir: bool) -> (warnings: Vec<String>)
        ensures
            warnings.deep_view() == self@.warnings(directory_is_dir),
    {
        if directory_is_dir {
            invalid_header_warnings(&self.header)
        } else {
            Vec::new()
        }
    }
}

/// Resolution is repeatable: two outcomes of `post_parse` for one
/// configuration, with one answer on the tiles directory, agree. Both are
/// refused with the same message, or both are configurations that say the
/// same in every field.
pub proof fn lemma_post_parse_repeatable(
    raw: Args,
    directory_is_dir: bool,
    first: Result<Args, Error>,
    second: Result<Args, Error>,
)
    requires
        raw.resolves_to(directory_is_dir, first),
        raw.resolves_to(directory_is_dir, second),
    ensures
        match (first, second) {
            (Ok(a), Ok(b)) => a@ == b@,
            (Err(a), Err(b)) => a.message() == b.message(),
            _ => false,
        },
{
}

/// What resolution gives is a configuration to run with.
pub proof fn lemma_resolved_is_resolved(raw: ArgsView, directory_is_dir: bool)
    ensures
        raw.resolved(directory_is_dir) matches Ok(resolved) ==> resolved.is_resolved(),
{
    if let Ok(resolved) = raw.resolved(directory_is_dir) {
        assert forall|i: int| 0 <= i < resolved.allowed_hosts.len() implies trimmed(
            #[trigger] resolved.allowed_hosts[i],
        ) == resolved.allowed_hosts[i] by {
            lemma_trimmed_idempotent(raw.allowed_hosts[i]);
        }
    }
}

/// Resolving a configuration to run with, its tiles directory in place,
/// changes nothing.
pub proof fn lemma_is_resolved_fixed(resolved: ArgsView)
    requires
        resolved.is_resolved(),
    ensures
        resolved.resolved(true) == Ok::<ArgsView, Seq<char>>(resolved),
{
    assert(normalized_hosts(resolved.allowed_hosts) == resolved.allowed_hosts);
}

/// Resolving again what was resolved changes nothing.
pub proof fn lemma_resolved_idempotent(raw: ArgsView)
    ensures
        raw.resolved(true) matches Ok(resolved) ==> resolved.resolved(true) == Ok::<
            ArgsView,
            Seq<char>,
        >(resolved),
{
    if let Ok(resolved) = raw.resolved(true) {
        lemma_resolved_is_resolved(raw, true);
        lemma_is_resolved_fixed(resolved);
    }
}

/// With the tiles directory in place, a reload interval that holds a token
/// whose count is too large for 64 bits is refused as no valid duration.
pub proof fn lemma_oversized_interval_refused(raw: ArgsView, i: int)
    requires
        raw.reload_interval is Some,
        0 <= i < duration_tokens(raw.reload_interval->0).len(),
        duration_tokens(raw.reload_interval->0)[i].len() > 0,
        decimal(duration_tokens(raw.reload_interval->0)[i].drop_last()) > u64::MAX,
    ensures
        raw.resolved(true) == Err::<ArgsView, Seq<char>>(invalid_duration_message()),
{
    lemma_oversized_count_fails(duration_tokens(raw.reload_interval->0), i);
}

} // verus!
