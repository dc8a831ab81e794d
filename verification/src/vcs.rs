//! VCS metadata: the data read from a repository's `.git/` directory, the
//! parsers for its files, and the parser for `git ls-remote` output.
//!
//! Reading the files and running `git` are done by the caller; everything
//! here works on their contents.
use vstd::prelude::*;

use crate::anchor::vcs::{split_first, split_first_exec};
use crate::error::YankError;
use crate::text::{
    byte_prefix, chars_eq, chars_of, first_index, first_index_exec, is_sha, is_sha_exec, lines,
    lines_exec, slice_chars, starts_with, starts_with_exec, string_of, tail, trim_exec, trim_ws,
    utf8_len, utf8_len_is,
};

verus! {

/// VCS metadata resolved from a repository.
#[derive(Debug, Clone, PartialEq, Eq)]
pub struct VcsInfo {
    /// Raw URL from `.git/config` for the chosen remote.
    pub remote_url: String,
    /// 40-hex commit SHA of HEAD, if resolvable.
    pub sha: Option<String>,
    /// Current branch name, if HEAD is a symbolic ref.
    pub branch: Option<String>,
    /// True if `.git/HEAD` is not a symbolic ref (detached HEAD).
    pub detached: bool,
    /// True if the branch section in `.git/config` has both `remote` and
    /// `merge`.
    pub has_upstream: bool,
    /// True if the local ref differs from the remote-tracking ref (false
    /// when unknown).
    pub ahead_of_remote: bool,
}

/// Resolve VCS metadata for a repository.
pub trait VcsInfoProvider {
    /// VCS metadata for the repository rooted at `git_root`, using the remote
    /// named `remote`.
    fn info(&self, git_root: &str, remote: &str) -> Result<VcsInfo, YankError>;
}

/// What a provider answered when asked for metadata. The fields are
/// private: an answer is recorded only by [`ask_info`].
pub struct InfoAnswer {
    root: Seq<char>,
    remote: Seq<char>,
    answer: Result<VcsInfo, YankError>,
}

impl InfoAnswer {
    /// The repository root asked about.
    pub closed spec fn root(self) -> Seq<char> {
        self.root
    }

    /// The remote asked about.
    pub closed spec fn remote(self) -> Seq<char> {
        self.remote
    }

    /// The answer of [`VcsInfoProvider::info`].
    pub closed spec fn answer(self) -> Result<VcsInfo, YankError> {
        self.answer
    }
}

/// Ask `provider` for the metadata of `git_root` and `remote`; returns the
/// answer and its record.
pub fn ask_info<P: VcsInfoProvider>(provider: &P, git_root: &str, remote: &str) -> (r: (
    Result<VcsInfo, YankError>,
    Ghost<InfoAnswer>,
))
    ensures
        r.1@.root() == git_root@,
        r.1@.remote() == remote@,
        r.1@.answer() == r.0,
{
    let a = provider.info(git_root, remote);
    let ghost g = InfoAnswer { root: git_root@, remote: remote@, answer: a };
    (a, Ghost(g))
}

// ---------------------------------------------------------------------------
// `.git/config`
// ---------------------------------------------------------------------------

/// What one meaningful line of a config file records: a section header
/// (no entry), or a `key = value` entry of the current section.
pub type ConfigEventView = (Seq<char>, Option<(Seq<char>, Seq<char>)>);

/// The reading state: the events so far and the current section name.
pub type ConfigState = (Seq<ConfigEventView>, Seq<char>);

/// The effect of one raw line. Blank lines and comments (`#`, `;`) are
/// skipped; `[name]` opens a section; `key = value` (split at the first
/// `=`, both sides trimmed) is an entry of the current section, ignored
/// before any section.
pub open spec fn config_line(st: ConfigState, raw: Seq<char>) -> ConfigState {
    let line = trim_ws(raw);
    if line.len() == 0 || line[0] == '#' || line[0] == ';' {
        st
    } else if line[0] == '[' && line.last() == ']' {
        let name = line.subrange(1, line.len() - 1);
        (st.0.push((name, None)), name)
    } else {
        match split_first(line, '=') {
            Some(kv) => if st.1.len() > 0 {
                (st.0.push((st.1, Some((trim_ws(kv.0), trim_ws(kv.1))))), st.1)
            } else {
                st
            },
            None => st,
        }
    }
}

/// Reading a sequence of raw lines from the start.
pub open spec fn config_fold(ls: Seq<Seq<char>>) -> ConfigState
    decreases ls.len(),
{
    if ls.len() == 0 {
        (Seq::empty(), Seq::empty())
    } else {
        config_line(config_fold(ls.drop_last()), ls.last())
    }
}

/// The events of a config file, in order.
pub open spec fn config_events(content: Seq<char>) -> Seq<ConfigEventView> {
    config_fold(lines(content)).0
}

/// The sections of a config as a map from section name to its keys: a
/// header creates its section if absent; an entry sets its key, a later
/// value replacing an earlier one.
pub open spec fn config_apply(
    m: Map<Seq<char>, Map<Seq<char>, Seq<char>>>,
    e: ConfigEventView,
) -> Map<Seq<char>, Map<Seq<char>, Seq<char>>> {
    let cur = if m.contains_key(e.0) {
        m[e.0]
    } else {
        Map::empty()
    };
    match e.1 {
        None => m.insert(e.0, cur),
        Some(kv) => m.insert(e.0, cur.insert(kv.0, kv.1)),
    }
}

/// The section map built from a sequence of events.
pub open spec fn config_map(es: Seq<ConfigEventView>) -> Map<Seq<char>, Map<Seq<char>, Seq<char>>>
    decreases es.len(),
{
    if es.len() == 0 {
        Map::empty()
    } else {
        config_apply(config_map(es.drop_last()), es.last())
    }
}

/// The section map of a config file.
pub open spec fn config_of(content: Seq<char>) -> Map<Seq<char>, Map<Seq<char>, Seq<char>>> {
    config_map(config_events(content))
}

/// The value of `key` in `section` of a section map.
pub open spec fn config_value(
    m: Map<Seq<char>, Map<Seq<char>, Seq<char>>>,
    section: Seq<char>,
    key: Seq<char>,
) -> Option<Seq<char>> {
    if m.contains_key(section) && m[section].contains_key(key) {
        Some(m[section][key])
    } else {
        None
    }
}

/// One event of a parsed config.
pub struct ConfigEvent {
    section: Vec<char>,
    entry: Option<(Vec<char>, Vec<char>)>,
}

impl ConfigEvent {
    /// The event as character sequences.
    pub closed spec fn view_event(&self) -> ConfigEventView {
        (
            self.section@,
            match self.entry {
                Some(kv) => Some((kv.0@, kv.1@)),
                None => None,
            },
        )
    }
}

/// The events of a parsed config, as character sequences.
pub open spec fn events_view(es: Seq<ConfigEvent>) -> Seq<ConfigEventView> {
    es.map_values(|e: ConfigEvent| e.view_event())
}

/// A parsed `.git/config`.
pub struct GitConfig {
    events: Vec<ConfigEvent>,
}

impl GitConfig {
    /// The section map of the parsed file.
    pub closed spec fn sections(&self) -> Map<Seq<char>, Map<Seq<char>, Seq<char>>> {
        config_map(events_view(self.events@))
    }

    /// Whether the section `name` exists.
    pub fn has_section(&self, name: &str) -> (r: bool)
        ensures
            r == self.sections().contains_key(name@),
    {
        let n = chars_of(name);
        let mut seen = false;
        let mut i: usize = 0;
        while i < self.events.len()
            invariant
                i <= self.events.len(),
                n@ == name@,
                seen == config_map(events_view(self.events@).subrange(0, i as int)).contains_key(
                    name@,
                ),
            decreases self.events.len() - i,
        {
            let ghost ev = events_view(self.events@);
            assert(ev.subrange(0, i + 1).drop_last() =~= ev.subrange(0, i as int));
            assert(ev.subrange(0, i + 1).last() == self.events[i as int].view_event());
            if chars_eq(self.events[i].section.as_slice(), n.as_slice()) {
                seen = true;
            }
            i += 1;
        }
        assert(events_view(self.events@).subrange(0, self.events.len() as int) =~= events_view(
            self.events@,
        ));
        seen
    }

    /// The value of `key` in section `section`, if both exist.
    pub fn get(&self, section: &str, key: &str) -> (r: Option<String>)
        ensures
            match r {
                Some(v) => config_value(self.sections(), section@, key@) == Some(v@),
                None => config_value(self.sections(), section@, key@) is None,
            },
    {
        let sn = chars_of(section);
        let kn = chars_of(key);
        let mut val: Option<Vec<char>> = None;
        let mut i: usize = 0;
        while i < self.events.len()
            invariant
                i <= self.events.len(),
                sn@ == section@,
                kn@ == key@,
                config_value(config_map(events_view(self.events@).subrange(0, i as int)), section@, key@)
                    == match val {
                    Some(v) => Some(v@),
                    None => None::<Seq<char>>,
                },
            decreases self.events.len() - i,
        {
            let ghost ev = events_view(self.events@);
            assert(ev.subrange(0, i + 1).drop_last() =~= ev.subrange(0, i as int));
            assert(ev.subrange(0, i + 1).last() == self.events[i as int].view_event());
            if chars_eq(self.events[i].section.as_slice(), sn.as_slice()) {
                match &self.events[i].entry {
                    Some(kv) => {
                        if chars_eq(kv.0.as_slice(), kn.as_slice()) {
                            val = Some(kv.1.clone());
                        }
                    },
                    None => {},
                }
            }
            i += 1;
        }
        assert(events_view(self.events@).subrange(0, self.events.len() as int) =~= events_view(
            self.events@,
        ));
        match val {
            Some(v) => Some(string_of(v.as_slice())),
            None => None,
        }
    }
}

/// Parse the text of a `.git/config` (an INI-style file) into sections.
pub fn parse_git_config(content: &str) -> (r: GitConfig)
    ensures
        r.sections() == config_of(content@),
{
    let text = chars_of(content);
    let ls = lines_exec(text.as_slice());
    let ghost lv = ls@.map_values(|x: Vec<char>| x@);
    let mut events: Vec<ConfigEvent> = Vec::new();
    let mut current: Vec<char> = Vec::new();
    let mut i: usize = 0;
    while i < ls.len()
        invariant
            i <= ls.len(),
            lv == ls@.map_values(|x: Vec<char>| x@),
            lv == lines(content@),
            events_view(events@) == config_fold(lv.subrange(0, i as int)).0,
            current@ == config_fold(lv.subrange(0, i as int)).1,
        decreases ls.len() - i,
    {
        assert(lv.subrange(0, i + 1).drop_last() =~= lv.subrange(0, i as int));
        assert(lv.subrange(0, i + 1).last() == ls[i as int]@);
        let line = trim_exec(ls[i].as_slice());
        let n = line.len();
        let ghost before = events@;
        if n == 0 || line[0] == '#' || line[0] == ';' {
        } else if line[0] == '[' && line[n - 1] == ']' {
            let name = slice_chars(line.as_slice(), 1, n - 1);
            let ev = ConfigEvent { section: name.clone(), entry: None };
            assert(ev.view_event() == (name@, None::<(Seq<char>, Seq<char>)>));
            events.push(ev);
            assert(events_view(events@) =~= events_view(before).push((name@, None)));
            current = name;
        } else {
            match split_first_exec(&line, '=') {
                Some(kv) => {
                    if current.len() > 0 {
                        let k = trim_exec(kv.0.as_slice());
                        let v = trim_exec(kv.1.as_slice());
                        let ghost evv = (current@, Some((k@, v@)));
                        let ev = ConfigEvent { section: current.clone(), entry: Some((k, v)) };
                        assert(ev.view_event() == evv);
                        events.push(ev);
                        assert(events_view(events@) =~= events_view(before).push(evv));
                    }
                },
                None => {},
            }
        }
        i += 1;
    }
    assert(lv.subrange(0, ls.len() as int) =~= lv);
    GitConfig { events }
}

/// The config section of a remote.
pub open spec fn remote_section(remote: Seq<char>) -> Seq<char> {
    "remote \""@ + remote + "\""@
}

/// The config section of a branch.
pub open spec fn branch_section(branch: Seq<char>) -> Seq<char> {
    "branch \""@ + branch + "\""@
}

fn quoted_section(kind: &str, name: &str) -> (r: String)
    ensures
        r@ == kind@ + " \""@ + name@ + "\""@,
{
    let mut s = String::from_str(kind);
    s.append(" \"");
    s.append(name);
    s.append("\"");
    s
}

/// The URL of `remote` in a config file's text: a VCS error when the remote
/// section is missing, or when it has no `url`.
pub fn parse_remote_url(config: &str, remote: &str) -> (r: Result<String, YankError>)
    ensures
        !config_of(config@).contains_key(remote_section(remote@)) ==> (r matches Err(
            YankError::Vcs(m),
        ) && m@ == "remote '"@ + remote@ + "' not found"@),
        config_of(config@).contains_key(remote_section(remote@)) ==> match config_value(
            config_of(config@),
            remote_section(remote@),
            "url"@,
        ) {
            Some(u) => r matches Ok(s) && s@ == u,
            None => r matches Err(YankError::Vcs(m)) && m@ == "remote '"@ + remote@
                + "' has no url"@,
        },
{
    let sections = parse_git_config(config);
    let name = quoted_section("remote", remote);
    proof {
        assert("remote"@ + " \""@ + remote@ + "\""@ =~= remote_section(remote@)) by {
            reveal_strlit("remote");
            reveal_strlit(" \"");
            reveal_strlit("remote \"");
        }
    }
    if !sections.has_section(name.as_str()) {
        let mut m = String::from_str("remote '");
        m.append(remote);
        m.append("' not found");
        return Err(YankError::Vcs(m));
    }
    match sections.get(name.as_str(), "url") {
        Some(u) => Ok(u),
        None => {
            let mut m = String::from_str("remote '");
            m.append(remote);
            m.append("' has no url");
            Err(YankError::Vcs(m))
        },
    }
}

/// Whether `branch` has upstream tracking configured: its section in the
/// config text has both `remote` and `merge`.
pub fn check_has_upstream(config: &str, branch: &str) -> (r: bool)
    ensures
        r == (config_value(config_of(config@), branch_section(branch@), "remote"@) is Some
            && config_value(config_of(config@), branch_section(branch@), "merge"@) is Some),
{
    let sections = parse_git_config(config);
    let name = quoted_section("branch", branch);
    proof {
        assert("branch"@ + " \""@ + branch@ + "\""@ =~= branch_section(branch@)) by {
            reveal_strlit("branch");
            reveal_strlit(" \"");
            reveal_strlit("branch \"");
        }
    }
    if sections.has_section(name.as_str()) {
        sections.get(name.as_str(), "remote").is_some() && sections.get(name.as_str(), "merge").is_some()
    } else {
        false
    }
}

// ---------------------------------------------------------------------------
// `.git/HEAD` and refs
// ---------------------------------------------------------------------------

/// What `.git/HEAD` says.
#[derive(Debug, Clone, PartialEq, Eq)]
pub struct HeadState {
    /// The ref HEAD points at (`ref: <path>`), if symbolic.
    pub ref_path: Option<String>,
    /// The branch name, when the ref is under `refs/heads/`.
    pub branch: Option<String>,
    /// True unless HEAD is a symbolic ref.
    pub detached: bool,
    /// The commit id, when HEAD holds one directly.
    pub sha: Option<String>,
}

/// The meaning of the (trimmed) text of `.git/HEAD`: a symbolic ref
/// `ref: <path>`; a raw commit id (detached); anything else is detached
/// with nothing known.
pub open spec fn head_spec(head: Seq<char>) -> (
    Option<Seq<char>>,
    Option<Seq<char>>,
    bool,
    Option<Seq<char>>,
) {
    let h = trim_ws(head);
    if starts_with(h, "ref: "@) {
        let rp = tail(h, "ref: "@.len() as int);
        (
            Some(rp),
            if starts_with(rp, "refs/heads/"@) {
                Some(tail(rp, "refs/heads/"@.len() as int))
            } else {
                None
            },
            false,
            None,
        )
    } else if is_sha(h) {
        (None, None, true, Some(h))
    } else {
        (None, None, true, None)
    }
}

/// The optional string as a character sequence.
pub open spec fn opt_view(o: Option<String>) -> Option<Seq<char>> {
    match o {
        Some(s) => Some(s@),
        None => None,
    }
}

/// Read the text of `.git/HEAD`.
pub fn parse_head(head: &str) -> (r: HeadState)
    ensures
        (opt_view(r.ref_path), opt_view(r.branch), r.detached, opt_view(r.sha)) == head_spec(
            head@,
        ),
{
    let h = trim_exec(chars_of(head).as_slice());
    let pfx = chars_of("ref: ");
    if starts_with_exec(h.as_slice(), pfx.as_slice()) {
        let rp = slice_chars(h.as_slice(), pfx.len(), h.len());
        let heads = chars_of("refs/heads/");
        let branch = if starts_with_exec(rp.as_slice(), heads.as_slice()) {
            Some(string_of(slice_chars(rp.as_slice(), heads.len(), rp.len()).as_slice()))
        } else {
            None
        };
        HeadState { ref_path: Some(string_of(rp.as_slice())), branch, detached: false, sha: None }
    } else if is_sha_exec(h.as_slice()) {
        HeadState { ref_path: None, branch: None, detached: true, sha: Some(string_of(h.as_slice())) }
    } else {
        HeadState { ref_path: None, branch: None, detached: true, sha: None }
    }
}

/// The commit id a `packed-refs` line gives for `ref_path`: a line (after
/// trimming) that is not a comment (`#`) or peeled line (`^`), of the form
/// `<sha> <ref>` split at the first space, naming `ref_path`, with a full
/// commit id (40 hexadecimal digits).
pub open spec fn packed_line_sha(line: Seq<char>, ref_path: Seq<char>) -> Option<Seq<char>> {
    let t = trim_ws(line);
    if t.len() > 0 && (t[0] == '#' || t[0] == '^') {
        None
    } else {
        match split_first(t, ' ') {
            Some(p) => if p.1 == ref_path && is_sha(p.0) {
                Some(p.0)
            } else {
                None
            },
            None => None,
        }
    }
}

/// The first commit id the lines give for `ref_path`.
pub open spec fn packed_lookup(ls: Seq<Seq<char>>, ref_path: Seq<char>) -> Option<Seq<char>>
    decreases ls.len(),
{
    if ls.len() == 0 {
        None
    } else if packed_line_sha(ls[0], ref_path) is Some {
        packed_line_sha(ls[0], ref_path)
    } else {
        packed_lookup(ls.drop_first(), ref_path)
    }
}

/// What `packed-refs` gives for a ref is always a full commit id.
pub proof fn lemma_packed_lookup_is_sha(ls: Seq<Seq<char>>, ref_path: Seq<char>)
    ensures
        packed_lookup(ls, ref_path) matches Some(s) ==> is_sha(s),
    decreases ls.len(),
{
    if ls.len() > 0 && packed_line_sha(ls[0], ref_path) is None {
        lemma_packed_lookup_is_sha(ls.drop_first(), ref_path);
    }
}

/// The commit id of a ref: the content of its loose ref file when that is a
/// commit id (after trimming), else what `packed-refs` gives for it.
pub open spec fn ref_sha_spec(
    loose: Option<Seq<char>>,
    packed: Option<Seq<char>>,
    ref_path: Seq<char>,
) -> Option<Seq<char>> {
    match loose {
        Some(c) if is_sha(trim_ws(c)) => Some(trim_ws(c)),
        _ => match packed {
            Some(p) => packed_lookup(lines(p), ref_path),
            None => None,
        },
    }
}

fn packed_line_sha_exec(line: &Vec<char>, ref_path: &Vec<char>) -> (r: Option<Vec<char>>)
    ensures
        match r {
            Some(v) => packed_line_sha(line@, ref_path@) == Some(v@),
            None => packed_line_sha(line@, ref_path@) is None,
        },
{
    let t = trim_exec(line.as_slice());
    if t.len() > 0 && (t[0] == '#' || t[0] == '^') {
        return None;
    }
    match split_first_exec(&t, ' ') {
        Some(p) => {
            if chars_eq(p.1.as_slice(), ref_path.as_slice()) && is_sha_exec(p.0.as_slice()) {
                Some(p.0)
            } else {
                None
            }
        },
        None => None,
    }
}

/// The commit id of `ref_path`, from the texts of its loose ref file and of
/// `packed-refs` (each absent when unreadable).
pub fn resolve_ref(loose: Option<&str>, packed: Option<&str>, ref_path: &str) -> (r: Option<String>)
    ensures
        opt_view(r) == ref_sha_spec(
            match loose {
                Some(c) => Some(c@),
                None => None,
            },
            match packed {
                Some(p) => Some(p@),
                None => None,
            },
            ref_path@,
        ),
        r matches Some(s) ==> is_sha(s@),
{
    if let Some(content) = loose {
        let sha = trim_exec(chars_of(content).as_slice());
        if is_sha_exec(sha.as_slice()) {
            return Some(string_of(sha.as_slice()));
        }
    }
    let p = match packed {
        Some(p) => p,
        None => {
            return None;
        },
    };
    let rp = chars_of(ref_path);
    let ls = lines_exec(chars_of(p).as_slice());
    proof {
        lemma_packed_lookup_is_sha(lines(p@), ref_path@);
    }
    let ghost lv = ls@.map_values(|x: Vec<char>| x@);
    let mut i: usize = 0;
    assert(lv.subrange(0, ls.len() as int) =~= lv);
    while i < ls.len()
        invariant
            i <= ls.len(),
            rp@ == ref_path@,
            lv == ls@.map_values(|x: Vec<char>| x@),
            lv == lines(p@),
            packed == Some(p),
            match loose {
                Some(c) => !is_sha(trim_ws(c@)),
                None => true,
            },
            packed_lookup(lv, ref_path@) == packed_lookup(lv.subrange(i as int, lv.len() as int), ref_path@),
        decreases ls.len() - i,
    {
        assert(lv.subrange(i as int, lv.len() as int).drop_first() =~= lv.subrange(i + 1, lv.len() as int));
        assert(lv.subrange(i as int, lv.len() as int)[0] == ls[i as int]@);
        match packed_line_sha_exec(&ls[i], &rp) {
            Some(sha) => {
                return Some(string_of(sha.as_slice()));
            },
            None => {},
        }
        i += 1;
    }
    None
}

/// The remote-tracking ref of `branch` on `remote`.
pub open spec fn remote_ref_spec(remote: Seq<char>, branch: Seq<char>) -> Seq<char> {
    "refs/remotes/"@ + remote + "/"@ + branch
}

/// The path of the remote-tracking ref of `branch` on `remote`.
pub fn remote_ref_path(remote: &str, branch: &str) -> (r: String)
    ensures
        r@ == remote_ref_spec(remote@, branch@),
{
    let mut s = String::from_str("refs/remotes/");
    s.append(remote);
    s.append("/");
    s.append(branch);
    s
}

/// Whether the local branch differs from its remote-tracking ref: only when
/// both commit ids are known and differ (unknown counts as not ahead).
pub fn check_ahead_of_remote(local_sha: Option<&str>, remote_sha: Option<&str>) -> (r: bool)
    ensures
        r == match (local_sha, remote_sha) {
            (Some(l), Some(rs)) => l@ != rs@,
            _ => false,
        },
{
    let local_sha = match local_sha {
        Some(s) => s,
        None => {
            return false;
        },
    };
    match remote_sha {
        Some(rs) => !chars_eq(chars_of(local_sha).as_slice(), chars_of(rs).as_slice()),
        None => false,
    }
}

/// Whether a branch has upstream tracking in a config text.
pub open spec fn upstream_spec(config: Seq<char>, branch: Seq<char>) -> bool {
    config_value(config_of(config), branch_section(branch), "remote"@) is Some && config_value(
        config_of(config),
        branch_section(branch),
        "merge"@,
    ) is Some
}

/// The text as an optional character sequence.
pub open spec fn opt_str_view(o: Option<&str>) -> Option<Seq<char>> {
    match o {
        Some(s) => Some(s@),
        None => None,
    }
}

/// The metadata the repository files give: the remote's URL; HEAD's branch
/// and detached state; the commit id (of the symbolic ref, or HEAD's own);
/// whether the branch tracks an upstream; whether its commit differs from
/// the remote-tracking ref's.
pub open spec fn vcs_info_spec(
    config: Seq<char>,
    remote: Seq<char>,
    head: Seq<char>,
    loose_head_ref: Option<Seq<char>>,
    loose_remote_ref: Option<Seq<char>>,
    packed: Option<Seq<char>>,
    info: VcsInfo,
) -> bool {
    let h = head_spec(head);
    let sha = match h.0 {
        Some(rp) => ref_sha_spec(loose_head_ref, packed, rp),
        None => h.3,
    };
    &&& config_value(config_of(config), remote_section(remote), "url"@) == Some(info.remote_url@)
    &&& opt_view(info.sha) == sha
    &&& opt_view(info.branch) == h.1
    &&& info.detached == h.2
    &&& info.has_upstream == match h.1 {
        Some(b) => upstream_spec(config, b),
        None => false,
    }
    &&& info.ahead_of_remote == match h.1 {
        Some(b) => match (sha, ref_sha_spec(loose_remote_ref, packed, remote_ref_spec(remote, b))) {
            (Some(l), Some(rs)) => l != rs,
            _ => false,
        },
        None => false,
    }
}

/// VCS metadata from the texts of the repository files: `.git/config`,
/// `.git/HEAD`, the loose file of HEAD's ref, the loose file of the
/// branch's remote-tracking ref, and `packed-refs` (each of the last three
/// absent when unreadable). The remote's URL is looked up first, with the
/// errors of [`parse_remote_url`].
pub fn vcs_info_from_files(
    config: &str,
    remote: &str,
    head: &str,
    loose_head_ref: Option<&str>,
    loose_remote_ref: Option<&str>,
    packed: Option<&str>,
) -> (r: Result<VcsInfo, YankError>)
    ensures
        !config_of(config@).contains_key(remote_section(remote@)) ==> (r matches Err(
            YankError::Vcs(m),
        ) && m@ == "remote '"@ + remote@ + "' not found"@),
        config_of(config@).contains_key(remote_section(remote@)) && config_value(
            config_of(config@),
            remote_section(remote@),
            "url"@,
        ) is None ==> (r matches Err(YankError::Vcs(m)) && m@ == "remote '"@ + remote@
            + "' has no url"@),
        config_value(config_of(config@), remote_section(remote@), "url"@) is Some ==> (r matches Ok(
            info,
        ) && vcs_info_spec(
            config@,
            remote@,
            head@,
            opt_str_view(loose_head_ref),
            opt_str_view(loose_remote_ref),
            opt_str_view(packed),
            info,
        )),
{
    let remote_url = match parse_remote_url(config, remote) {
        Ok(u) => u,
        Err(e) => {
            return Err(e);
        },
    };
    let h = parse_head(head);
    let sha = match &h.ref_path {
        Some(rp) => resolve_ref(loose_head_ref, packed, rp.as_str()),
        None => h.sha.clone(),
    };
    let has_upstream = match &h.branch {
        Some(b) => check_has_upstream(config, b.as_str()),
        None => false,
    };
    let ahead_of_remote = match &h.branch {
        Some(b) => {
            let rr = remote_ref_path(remote, b.as_str());
            let remote_sha = resolve_ref(loose_remote_ref, packed, rr.as_str());
            let l = match &sha {
                Some(s) => Some(s.as_str()),
                None => None,
            };
            let rs = match &remote_sha {
                Some(s) => Some(s.as_str()),
                None => None,
            };
            check_ahead_of_remote(l, rs)
        },
        None => false,
    };
    Ok(
        VcsInfo {
            remote_url,
            sha,
            branch: h.branch,
            detached: h.detached,
            has_upstream,
            ahead_of_remote,
        },
    )
}

// ---------------------------------------------------------------------------
// Remote verification
// ---------------------------------------------------------------------------

/// Outcome of an opt-in remote verification.
#[derive(Debug, Clone, PartialEq, Eq)]
pub enum VerifyOutcome {
    /// The ref exists on the remote.
    Present,
    /// The remote answered, and the ref is not among its refs.
    Absent,
    /// No clean answer (unreachable, auth, timeout, git missing, ...), with
    /// a short reason.
    Unverified(String),
}

/// Verify that a ref exists on a remote.
pub trait RemoteVerifier {
    /// Whether `git_ref` (a commit id or a branch name) exists on the remote
    /// named `remote`.
    fn verify(&self, git_root: &str, remote: &str, git_ref: &str) -> VerifyOutcome;
}

/// What a verifier answered when asked about a ref. The fields are
/// private: an answer is recorded only by [`ask_verify`].
pub struct VerifyAnswer {
    root: Seq<char>,
    remote: Seq<char>,
    git_ref: Seq<char>,
    outcome: VerifyOutcome,
}

impl VerifyAnswer {
    /// The repository root asked about.
    pub closed spec fn root(self) -> Seq<char> {
        self.root
    }

    /// The remote asked about.
    pub closed spec fn remote(self) -> Seq<char> {
        self.remote
    }

    /// The ref asked about.
    pub closed spec fn git_ref(self) -> Seq<char> {
        self.git_ref
    }

    /// The answer of [`RemoteVerifier::verify`].
    pub closed spec fn outcome(self) -> VerifyOutcome {
        self.outcome
    }
}

/// Ask `verifier` whether `git_ref` exists on `remote`; returns the answer
/// and its record.
pub fn ask_verify<V: RemoteVerifier>(
    verifier: &V,
    git_root: &str,
    remote: &str,
    git_ref: &str,
) -> (r: (VerifyOutcome, Ghost<VerifyAnswer>))
    ensures
        r.1@.root() == git_root@,
        r.1@.remote() == remote@,
        r.1@.git_ref() == git_ref@,
        r.1@.outcome() == r.0,
{
    let o = verifier.verify(git_root, remote, git_ref);
    let ghost g = VerifyAnswer { root: git_root@, remote: remote@, git_ref: git_ref@, outcome: o };
    (o, Ghost(g))
}

/// The `<sha>` and `<ref>` fields of one `git ls-remote` line (trimmed, at
/// least two tab-separated fields), if it has them.
pub open spec fn ls_remote_fields(line: Seq<char>) -> Option<(Seq<char>, Seq<char>)> {
    let t = trim_ws(line);
    match split_first(t, '\t') {
        Some(p) => Some(
            (
                p.0,
                match first_index(p.1, '\t') {
                    Some(j) => p.1.subrange(0, j),
                    None => p.1,
                },
            ),
        ),
        None => None,
    }
}

/// Whether one line shows `git_ref`: by commit id when `git_ref` is one,
/// otherwise by the ref `refs/heads/<git_ref>` or the bare name.
pub open spec fn ls_remote_line_matches(line: Seq<char>, git_ref: Seq<char>) -> bool {
    match ls_remote_fields(line) {
        Some(f) => if is_sha(git_ref) {
            f.0 == git_ref
        } else {
            f.1 == "refs/heads/"@ + git_ref || f.1 == git_ref
        },
        None => false,
    }
}

/// Whether some line shows `git_ref`.
pub open spec fn any_line_matches(ls: Seq<Seq<char>>, git_ref: Seq<char>) -> bool
    decreases ls.len(),
{
    if ls.len() == 0 {
        false
    } else {
        ls_remote_line_matches(ls[0], git_ref) || any_line_matches(ls.drop_first(), git_ref)
    }
}

/// The verdict on `git ls-remote` output: no output at all is unverified
/// (`empty response`); `Present` when a line shows the ref; `Absent`
/// otherwise.
pub open spec fn ls_remote_spec(output: Seq<char>, git_ref: Seq<char>) -> Option<bool> {
    if trim_ws(output).len() == 0 {
        None
    } else {
        Some(any_line_matches(lines(output), git_ref))
    }
}

fn line_matches_exec(line: &Vec<char>, git_ref: &Vec<char>, ref_is_sha: bool, full_ref: &Vec<char>) -> (r:
    bool)
    requires
        ref_is_sha == is_sha(git_ref@),
        full_ref@ == "refs/heads/"@ + git_ref@,
    ensures
        r == ls_remote_line_matches(line@, git_ref@),
{
    let t = trim_exec(line.as_slice());
    let (sha, rest) = match split_first_exec(&t, '\t') {
        Some(p) => p,
        None => {
            return false;
        },
    };
    let name = match first_index_exec(rest.as_slice(), '\t') {
        Some(j) => slice_chars(rest.as_slice(), 0, j),
        None => rest.clone(),
    };
    if ref_is_sha {
        chars_eq(sha.as_slice(), git_ref.as_slice())
    } else {
        chars_eq(name.as_slice(), full_ref.as_slice()) || chars_eq(name.as_slice(), git_ref.as_slice())
    }
}

/// Parse `git ls-remote` output (`<sha>\t<ref>` per line) for `git_ref`.
pub fn parse_ls_remote_output(output: &str, git_ref: &str) -> (r: VerifyOutcome)
    ensures
        match ls_remote_spec(output@, git_ref@) {
            None => r matches VerifyOutcome::Unverified(m) && m@ == "empty response"@,
            Some(true) => r == VerifyOutcome::Present,
            Some(false) => r == VerifyOutcome::Absent,
        },
{
    let text = chars_of(output);
    let trimmed = trim_exec(text.as_slice());
    if trimmed.len() == 0 {
        return VerifyOutcome::Unverified(String::from_str("empty response"));
    }
    let g = chars_of(git_ref);
    let ref_is_sha = is_sha_exec(g.as_slice());
    let mut full_ref = String::from_str("refs/heads/");
    full_ref.append(git_ref);
    let full = chars_of(full_ref.as_str());
    let ls = lines_exec(text.as_slice());
    let ghost lv = ls@.map_values(|x: Vec<char>| x@);
    let mut i: usize = 0;
    assert(lv.subrange(0, ls.len() as int) =~= lv);
    while i < ls.len()
        invariant
            i <= ls.len(),
            g@ == git_ref@,
            ref_is_sha == is_sha(g@),
            full@ == "refs/heads/"@ + g@,
            lv == ls@.map_values(|x: Vec<char>| x@),
            lv == lines(output@),
            trim_ws(output@).len() != 0,
            any_line_matches(lv, git_ref@) == any_line_matches(
                lv.subrange(i as int, lv.len() as int),
                git_ref@,
            ),
        decreases ls.len() - i,
    {
        assert(lv.subrange(i as int, lv.len() as int).drop_first() =~= lv.subrange(i + 1, lv.len() as int));
        assert(lv.subrange(i as int, lv.len() as int)[0] == ls[i as int]@);
        if line_matches_exec(&ls[i], &g, ref_is_sha, &full) {
            return VerifyOutcome::Present;
        }
        i += 1;
    }
    VerifyOutcome::Absent
}

/// What one look at a running `git ls-remote` found.
pub enum LsRemotePoll {
    /// The process could not be started.
    SpawnFailed,
    /// The process ended; on success, with what it printed.
    Exited { success: bool, output: String },
    /// The process is still running; whether its deadline has passed.
    Running { past_deadline: bool },
    /// Asking for the process state failed.
    WaitFailed,
}

/// What to do after a look at the running `git ls-remote`.
pub enum LsRemoteStep {
    /// Stop with this outcome.
    Finish(VerifyOutcome),
    /// Kill the process, then stop with this outcome.
    KillAndFinish(VerifyOutcome),
    /// Wait a little and look again.
    Sleep,
}

/// The decision of the remote check for one look at the process: a failed
/// start means git is unavailable; a failed exit or a failed wait means
/// the listing failed; a finished listing is searched for `git_ref`; past
/// the deadline the process is killed and the check timed out; otherwise
/// wait.
pub fn ls_remote_step(poll: LsRemotePoll, git_ref: &str) -> (r: LsRemoteStep)
    ensures
        match poll {
            LsRemotePoll::SpawnFailed => r matches LsRemoteStep::Finish(
                VerifyOutcome::Unverified(m),
            ) && m@ == "git not available"@,
            LsRemotePoll::Exited { success, output } => if success {
                r matches LsRemoteStep::Finish(o) && match ls_remote_spec(output@, git_ref@) {
                    None => o matches VerifyOutcome::Unverified(m) && m@ == "empty response"@,
                    Some(true) => o == VerifyOutcome::Present,
                    Some(false) => o == VerifyOutcome::Absent,
                }
            } else {
                r matches LsRemoteStep::Finish(VerifyOutcome::Unverified(m)) && m@
                    == "git ls-remote failed"@
            },
            LsRemotePoll::Running { past_deadline } => if past_deadline {
                r matches LsRemoteStep::KillAndFinish(VerifyOutcome::Unverified(m)) && m@
                    == "timed out"@
            } else {
                r is Sleep
            },
            LsRemotePoll::WaitFailed => r matches LsRemoteStep::Finish(
                VerifyOutcome::Unverified(m),
            ) && m@ == "git ls-remote failed"@,
        },
{
    match poll {
        LsRemotePoll::SpawnFailed => LsRemoteStep::Finish(
            VerifyOutcome::Unverified(String::from_str("git not available")),
        ),
        LsRemotePoll::Exited { success, output } => {
            if success {
                LsRemoteStep::Finish(parse_ls_remote_output(output.as_str(), git_ref))
            } else {
                LsRemoteStep::Finish(
                    VerifyOutcome::Unverified(String::from_str("git ls-remote failed")),
                )
            }
        },
        LsRemotePoll::Running { past_deadline } => {
            if past_deadline {
                LsRemoteStep::KillAndFinish(
                    VerifyOutcome::Unverified(String::from_str("timed out")),
                )
            } else {
                LsRemoteStep::Sleep
            }
        },
        LsRemotePoll::WaitFailed => LsRemoteStep::Finish(
            VerifyOutcome::Unverified(String::from_str("git ls-remote failed")),
        ),
    }
}

// ---------------------------------------------------------------------------
// Fakes
// ---------------------------------------------------------------------------

/// A [`VcsInfoProvider`] that answers with fixed metadata.
pub struct FakeVcsInfoProvider {
    pub info: VcsInfo,
}

impl FakeVcsInfoProvider {
    /// A provider answering with `info`.
    pub fn new(info: VcsInfo) -> (r: Self)
        ensures
            r.info == info,
    {
        FakeVcsInfoProvider { info }
    }

    /// A provider for a GitHub remote `git@github.com:user/repo.git` on
    /// branch `main` at commit `abc1234567890123456789012345678901234567`,
    /// with an upstream and nothing unpushed.
    pub fn default_github() -> (r: Self)
        ensures
            r.info.remote_url@ == "git@github.com:user/repo.git"@,
            r.info.sha matches Some(s) && s@ == "abc1234567890123456789012345678901234567"@,
            r.info.branch matches Some(b) && b@ == "main"@,
            !r.info.detached,
            r.info.has_upstream,
            !r.info.ahead_of_remote,
    {
        FakeVcsInfoProvider {
            info: VcsInfo {
                remote_url: String::from_str("git@github.com:user/repo.git"),
                sha: Some(String::from_str("abc1234567890123456789012345678901234567")),
                branch: Some(String::from_str("main")),
                detached: false,
                has_upstream: true,
                ahead_of_remote: false,
            },
        }
    }
}

/// A copy of an optional string.
pub(crate) fn copy_opt(o: &Option<String>) -> (r: Option<String>)
    ensures
        r == *o,
{
    match o {
        Some(s) => Some(s.clone()),
        None => None,
    }
}

/// A field-by-field copy of VCS metadata.
fn copy_info(i: &VcsInfo) -> (r: VcsInfo)
    ensures
        r == *i,
{
    VcsInfo {
        remote_url: i.remote_url.clone(),
        sha: copy_opt(&i.sha),
        branch: copy_opt(&i.branch),
        detached: i.detached,
        has_upstream: i.has_upstream,
        ahead_of_remote: i.ahead_of_remote,
    }
}

impl VcsInfoProvider for FakeVcsInfoProvider {
    /// The fixed metadata, whatever the repository and remote.
    fn info(&self, _git_root: &str, _remote: &str) -> (r: Result<VcsInfo, YankError>)
        ensures
            r == Ok::<VcsInfo, YankError>(self.info),
    {
        Ok(copy_info(&self.info))
    }
}

/// A [`RemoteVerifier`] that answers with a fixed outcome.
pub struct FakeRemoteVerifier {
    pub outcome: VerifyOutcome,
}

impl FakeRemoteVerifier {
    /// A verifier answering `outcome`.
    pub fn new(outcome: VerifyOutcome) -> (r: Self)
        ensures
            r.outcome == outcome,
    {
        FakeRemoteVerifier { outcome }
    }

    /// A verifier answering `Present`.
    pub fn present() -> (r: Self)
        ensures
            r.outcome == VerifyOutcome::Present,
    {
        Self::new(VerifyOutcome::Present)
    }

    /// A verifier answering `Absent`.
    pub fn absent() -> (r: Self)
        ensures
            r.outcome == VerifyOutcome::Absent,
    {
        Self::new(VerifyOutcome::Absent)
    }

    /// A verifier answering `Unverified(reason)`.
    pub fn unverified(reason: &str) -> (r: Self)
        ensures
            r.outcome matches VerifyOutcome::Unverified(m) && m@ == reason@,
    {
        Self::new(VerifyOutcome::Unverified(String::from_str(reason)))
    }
}

impl RemoteVerifier for FakeRemoteVerifier {
    /// The fixed outcome, whatever the ref.
    fn verify(&self, _git_root: &str, _remote: &str, _git_ref: &str) -> (r: VerifyOutcome)
        ensures
            r == self.outcome,
    {
        match &self.outcome {
            VerifyOutcome::Present => VerifyOutcome::Present,
            VerifyOutcome::Absent => VerifyOutcome::Absent,
            VerifyOutcome::Unverified(m) => VerifyOutcome::Unverified(m.clone()),
        }
    }
}

} // verus!
