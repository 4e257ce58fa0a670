//! Reading a session's desktop entry: whether it is hidden, the command that
//! starts it, and its name.

use vstd::prelude::*;
use vstd::string::*;

use crate::assoc::assoc_view;
use crate::sysutil::{SessionInfo, SessionType};
use crate::text::{chars_of, parts_after, split_on};

verus! {

/// The longest field key that is looked up; a short key keeps the pattern
/// built from it well within the regex engine's size limit.
pub const MAX_FIELD_KEY_LEN: usize = 64;

/// Whether `key` is a short key made of ASCII letters only.
pub open spec fn is_field_key(key: Seq<char>) -> bool {
    0 < key.len() <= MAX_FIELD_KEY_LEN && forall|i: int| 0 <= i < key.len() ==> ('a' <= #[trigger] key[i] <= 'z' || 'A'
        <= key[i] <= 'Z')
}

/// Whether `pat` occurs in `text` at position `i`.
pub open spec fn occurs_at(text: Seq<char>, pat: Seq<char>, i: int) -> bool {
    0 <= i && i + pat.len() <= text.len() && text.subrange(i, i + pat.len()) == pat
}

/// The start of `s` up to its first line break.
pub open spec fn line_start(s: Seq<char>) -> Seq<char>
    decreases s.len(),
{
    if s.len() == 0 || s[0] == '\n' {
        seq![]
    } else {
        seq![s[0]] + line_start(s.drop_first())
    }
}

/// The value of the field `key` in `text`: the rest of the line after the
/// first occurrence of `key=`, if there is one.
#[verifier::opaque]
pub open spec fn field_value(key: Seq<char>, text: Seq<char>) -> Option<Seq<char>> {
    let pat = key.push('=');
    if exists|i: int| occurs_at(text, pat, i) {
        let i = choose|i: int|
            occurs_at(text, pat, i) && forall|j: int| 0 <= j < i ==> !occurs_at(text, pat, j);
        Some(line_start(text.subrange(i + pat.len(), text.len() as int)))
    } else {
        None
    }
}

/// Relies on `regex::Regex::new` and `regex::Regex::captures`: the pattern
/// `key=(.*)`, with `key` made of at most 64 letters, always compiles; it
/// first matches where `key=` first occurs, and its group takes the rest of
/// that line, since `.` does not match a line break.
#[verifier::external_body]
fn capture_field(key: &str, text: &str) -> (r: Option<String>)
    requires
        is_field_key(key@),
    ensures
        match r {
            Some(v) => field_value(key@, text@) == Some(v@),
            None => field_value(key@, text@) is None,
        },
{
    let re = regex::Regex::new(&format!("{key}=(.*)")).ok()?;
    re.captures(text).and_then(|c| c.get(1)).map(|m| m.as_str().to_owned())
}

/// The words that shlex reads from `s` before any quoting error.
pub uninterp spec fn shlex_words(s: Seq<char>) -> Seq<Seq<char>>;

/// Relies on `shlex::Shlex`: the words of a command line, up to the first
/// quoting error.
#[verifier::external_body]
fn shell_words_until_error(s: &str) -> (r: Vec<String>)
    ensures
        r.deep_view() == shlex_words(s@),
{
    shlex::Shlex::new(s).collect()
}

/// What a desktop entry says of its session.
#[derive(Clone, Debug)]
pub enum DesktopEntry {
    /// The entry sets `Hidden` or `NoDisplay` to `true`.
    Hidden,
    /// The entry has no command with at least one word.
    NoCommand,
    /// The entry has neither a name nor a file stem to use as one.
    NoName,
    /// A session to offer.
    Session { name: String, info: SessionInfo },
}

/// Whether a field value reads `true`.
pub open spec fn flag_set(v: Option<Seq<char>>) -> bool {
    v is Some && v->0 == seq!['t', 'r', 'u', 'e']
}

/// Whether `r` is what the desktop entry `text` says, for a session whose
/// command starts with `prefix` where it is an X11 session, and whose file
/// stem, where it can be read, is `stem`.
pub open spec fn is_desktop_entry(
    text: Seq<char>,
    prefix: Option<Seq<Seq<char>>>,
    stem: Option<Seq<char>>,
    r: DesktopEntry,
) -> bool {
    let hidden = flag_set(field_value(seq!['H', 'i', 'd', 'd', 'e', 'n'], text));
    let no_display = flag_set(
        field_value(seq!['N', 'o', 'D', 'i', 's', 'p', 'l', 'a', 'y'], text),
    );
    let exec = field_value(seq!['E', 'x', 'e', 'c'], text);
    let name = field_value(seq!['N', 'a', 'm', 'e'], text);
    if hidden || no_display {
        r is Hidden
    } else if exec is None || shlex_words(exec->0).len() == 0 {
        r is NoCommand
    } else if name is None && stem is None {
        r is NoName
    } else {
        r matches DesktopEntry::Session { name: n, info } && n@ == (if name is Some {
            name->0
        } else {
            stem->0
        }) && info.command.deep_view() == (if prefix is Some {
            prefix->0
        } else {
            seq![]
        }) + shlex_words(exec->0) && info.sess_type == (if prefix is Some {
            SessionType::X11
        } else {
            SessionType::Wayland
        })
    }
}

/// Whether the field `key` of `text` reads `true`.
fn field_is_true(key: &str, text: &str) -> (b: bool)
    requires
        is_field_key(key@),
    ensures
        b == flag_set(field_value(key@, text@)),
{
    match capture_field(key, text) {
        Some(v) => {
            let t = String::from_str("true");
            proof {
                reveal_strlit("true");
            }
            assert(t@ =~= seq!['t', 'r', 'u', 'e']);
            v == t
        },
        None => false,
    }
}

/// `prefix`, where it is given, followed by `words`.
fn prefixed_command(prefix: Option<&Vec<String>>, words: Vec<String>) -> (r: Vec<String>)
    ensures
        r.deep_view() == (match prefix {
            Some(p) => p.deep_view(),
            None => seq![],
        }) + words.deep_view(),
{
    let mut command: Vec<String> = Vec::new();
    match prefix {
        Some(p) => {
            let mut i: usize = 0;
            while i < p.len()
                invariant
                    i <= p@.len(),
                    command@.len() == i,
                    forall|k: int| 0 <= k < i ==> #[trigger] command@[k]@ == p@[k]@,
                decreases p@.len() - i,
            {
                command.push(p[i].clone());
                i = i + 1;
            }
        },
        None => {},
    }
    let ghost start = command@;
    let mut j: usize = 0;
    while j < words.len()
        invariant
            j <= words@.len(),
            command@.len() == start.len() + j,
            forall|k: int| 0 <= k < start.len() ==> #[trigger] command@[k] == start[k],
            forall|k: int| 0 <= k < j ==> #[trigger] command@[start.len() + k]@ == words@[k]@,
        decreases words@.len() - j,
    {
        command.push(words[j].clone());
        j = j + 1;
    }
    let ghost pre = match prefix {
        Some(p) => p.deep_view(),
        None => Seq::<Seq<char>>::empty(),
    };
    assert forall|k: int| 0 <= k < command@.len() implies #[trigger] command.deep_view()[k] == (pre
        + words.deep_view())[k] by {
        if k >= start.len() {
            assert(command@[start.len() + (k - start.len())]@ == words@[k - start.len()]@);
        }
    }
    assert(command.deep_view() =~= pre + words.deep_view());
    command
}

/// Read the desktop entry `text` of a session. `x11_prefix` is the command
/// line that starts an X11 session's command, given only for X11 sessions;
/// `file_stem` is the entry's file name without extension, used where the
/// entry has no name.
pub fn parse_desktop_entry(text: &str, x11_prefix: Option<&Vec<String>>, file_stem: Option<&str>) -> (r: DesktopEntry)
    ensures
        is_desktop_entry(
            text@,
            match x11_prefix {
                Some(p) => Some(p.deep_view()),
                None => None,
            },
            match file_stem {
                Some(s) => Some(s@),
                None => None,
            },
            r,
        ),
{
    proof {
        reveal_strlit("Hidden");
        reveal_strlit("NoDisplay");
        reveal_strlit("Exec");
        reveal_strlit("Name");
    }
    assert("Hidden"@ =~= seq!['H', 'i', 'd', 'd', 'e', 'n']);
    assert("NoDisplay"@ =~= seq!['N', 'o', 'D', 'i', 's', 'p', 'l', 'a', 'y']);
    assert("Exec"@ =~= seq!['E', 'x', 'e', 'c']);
    assert("Name"@ =~= seq!['N', 'a', 'm', 'e']);
    let hidden = field_is_true("Hidden", text);
    let no_display = field_is_true("NoDisplay", text);
    if hidden || no_display {
        return DesktopEntry::Hidden;
    }
    let exec = match capture_field("Exec", text) {
        Some(e) => e,
        None => return DesktopEntry::NoCommand,
    };
    let words = shell_words_until_error(exec.as_str());
    if words.len() == 0 {
        return DesktopEntry::NoCommand;
    }
    let command = prefixed_command(x11_prefix, words);
    let name = match capture_field("Name", text) {
        Some(n) => n,
        None => match file_stem {
            Some(s) => s.to_owned(),
            None => return DesktopEntry::NoName,
        },
    };
    let sess_type = match x11_prefix {
        Some(_) => SessionType::X11,
        None => SessionType::Wayland,
    };
    DesktopEntry::Session { name, info: SessionInfo { command, sess_type } }
}

/// The directory of X11 sessions under a data directory, and the separator
/// that follows it.
pub const X11_SESSIONS: &'static str = "/xsessions:";

/// The directory of Wayland sessions under a data directory.
pub const WAYLAND_SESSIONS: &'static str = "/wayland-sessions";

/// The session directories under the data directory `d`, X11 first.
pub open spec fn dirs_under(d: Seq<char>) -> Seq<char> {
    d + X11_SESSIONS@ + d + WAYLAND_SESSIONS@
}

/// The session directories under each of the data directories `parts`,
/// joined with `:`.
pub open spec fn join_dirs(parts: Seq<Seq<char>>) -> Seq<char>
    decreases parts.len(),
{
    if parts.len() == 0 {
        seq![]
    } else if parts.len() == 1 {
        dirs_under(parts[0])
    } else {
        join_dirs(parts.drop_last()) + seq![':'] + dirs_under(parts.last())
    }
}

/// Append to `out` the session directories under the data directory
/// `dirs[start..end]`, after a `:` unless it is the first.
fn push_dirs(out: &mut String, dirs: &str, start: usize, end: usize, first: bool)
    requires
        start <= end <= dirs@.len(),
    ensures
        final(out)@ == old(out)@ + (if first {
            seq![]
        } else {
            seq![':']
        }) + dirs_under(dirs@.subrange(start as int, end as int)),
{
    let part = dirs.substring_char(start, end);
    let ghost before = out@;
    if !first {
        proof {
            reveal_strlit(":");
        }
        out.append(":");
    }
    out.append(part);
    out.append(X11_SESSIONS);
    out.append(part);
    out.append(WAYLAND_SESSIONS);
    assert(out@ =~= before + (if first {
        seq![]
    } else {
        seq![':']
    }) + dirs_under(part@));
}

/// The `:`-separated session directories under the `:`-separated data
/// directories `data_dirs`, as the XDG base directory layout places them.
pub fn session_dirs(data_dirs: &str) -> (r: String)
    ensures
        r@ == join_dirs(split_on(data_dirs@, ':')),
{
    let v = chars_of(data_dirs);
    let mut out = String::new();
    let ghost done: Seq<Seq<char>> = seq![];
    let mut start: usize = 0;
    let mut i: usize = 0;
    assert(v@.subrange(0, v@.len() as int) =~= data_dirs@);
    assert(v@.subrange(0, 0) =~= Seq::<char>::empty());
    assert(done + split_on(data_dirs@, ':') =~= split_on(data_dirs@, ':'));
    while i < v.len()
        invariant
            start <= i <= v@.len(),
            v@ == data_dirs@,
            split_on(data_dirs@, ':') == done + parts_after(
                v@.subrange(i as int, v@.len() as int),
                v@.subrange(start as int, i as int),
                ':',
            ),
            (start == 0) == (done.len() == 0),
            out@ == join_dirs(done),
        decreases v@.len() - i,
    {
        let ghost rest = v@.subrange(i as int, v@.len() as int);
        assert(rest.drop_first() =~= v@.subrange(i + 1, v@.len() as int));
        if v[i] == ':' {
            push_dirs(&mut out, data_dirs, start, i, start == 0);
            proof {
                let part = v@.subrange(start as int, i as int);
                assert(done.push(part).drop_last() =~= done);
                assert(v@.subrange(i + 1, i + 1) =~= Seq::<char>::empty());
                assert(done + (seq![part] + parts_after(rest.drop_first(), seq![], ':'))
                    =~= done.push(part) + parts_after(rest.drop_first(), seq![], ':'));
                if done.len() == 0 {
                    assert(out@ =~= join_dirs(done.push(part)));
                }
                done = done.push(part);
            }
            start = i + 1;
        } else {
            assert(v@.subrange(start as int, i as int).push(v[i as int]) =~= v@.subrange(
                start as int,
                i + 1,
            ));
        }
        i = i + 1;
    }
    push_dirs(&mut out, data_dirs, start, i, start == 0);
    proof {
        let part = v@.subrange(start as int, i as int);
        assert(done.push(part).drop_last() =~= done);
        assert(split_on(data_dirs@, ':') =~= done.push(part));
        if done.len() == 0 {
            assert(out@ =~= join_dirs(done.push(part)));
        }
    }
    out
}

/// The name of the directories that hold X11 session entries.
pub const X11_DIR_NAME: &'static str = "xsessions";

/// Whether a session directory named `name` holds X11 sessions; any other
/// holds Wayland sessions.
pub fn is_x11_dir(name: &str) -> (b: bool)
    ensures
        b == (name@ == X11_DIR_NAME@),
{
    String::from_str(name) == String::from_str(X11_DIR_NAME)
}

/// The sessions found so far while the session directories are read in
/// order. An entry is known by its file name together with its directory's
/// name, so that the first directory to hold an entry decides it, and a
/// hidden entry hides the later ones of the same name too.
pub struct SessionScan {
    /// The entries decided so far.
    seen: Vec<String>,
    /// The sessions to offer, in the order found.
    found: Vec<(String, SessionInfo)>,
}

impl SessionScan {
    /// The entries decided so far.
    pub closed spec fn seen_view(&self) -> Seq<Seq<char>> {
        self.seen@.map_values(|k: String| k@)
    }

    /// The sessions to offer, as plain values.
    pub closed spec fn found_view(&self) -> Seq<(Seq<char>, (Seq<Seq<char>>, SessionType))> {
        assoc_view(self.found@)
    }

    /// A scan that has seen nothing.
    pub fn new() -> (s: SessionScan)
        ensures
            s.seen_view() == Seq::<Seq<char>>::empty(),
            s.found_view() == Seq::<(Seq<char>, (Seq<Seq<char>>, SessionType))>::empty(),
    {
        let s = SessionScan { seen: Vec::new(), found: Vec::new() };
        assert(s.seen_view() =~= Seq::<Seq<char>>::empty());
        assert(s.found_view() =~= Seq::<(Seq<char>, (Seq<Seq<char>>, SessionType))>::empty());
        s
    }

    /// Whether the entry `key` was decided already.
    pub fn has_seen(&self, key: &str) -> (b: bool)
        ensures
            b == self.seen_view().contains(key@),
    {
        let k = String::from_str(key);
        let mut i: usize = 0;
        while i < self.seen.len()
            invariant
                i <= self.seen@.len(),
                k@ == key@,
                forall|j: int| 0 <= j < i ==> self.seen@[j]@ != key@,
            decreases self.seen@.len() - i,
        {
            if self.seen[i] == k {
                assert(self.seen_view()[i as int] == key@);
                return true;
            }
            i = i + 1;
        }
        assert forall|j: int| 0 <= j < self.seen_view().len() implies self.seen_view()[j] != key@ by {
            assert(self.seen_view()[j] == self.seen@[j]@);
        }
        false
    }

    /// Take the entry `key` read as `entry`. An entry decided already is
    /// skipped; a hidden one is decided without a session; one that lacks a
    /// command or a name is skipped and left undecided.
    pub fn add(&mut self, key: String, entry: DesktopEntry)
        ensures
            old(self).seen_view().contains(key@) ==> final(self).seen_view() == old(self).seen_view()
                && final(self).found_view() == old(self).found_view(),
            !old(self).seen_view().contains(key@) ==> match entry {
                DesktopEntry::Hidden => final(self).seen_view() == old(self).seen_view().push(key@)
                    && final(self).found_view() == old(self).found_view(),
                DesktopEntry::Session { name, info } => final(self).seen_view() == old(
                    self,
                ).seen_view().push(key@) && final(self).found_view() == old(
                    self,
                ).found_view().push((name@, info.deep_view())),
                _ => final(self).seen_view() == old(self).seen_view() && final(self).found_view()
                    == old(self).found_view(),
            },
    {
        if self.has_seen(key.as_str()) {
            return;
        }
        let ghost k = key@;
        let ghost seen0 = self.seen_view();
        let ghost found0 = self.found_view();
        match entry {
            DesktopEntry::Hidden => {
                self.seen.push(key);
                assert(self.seen_view() =~= seen0.push(k));
            },
            DesktopEntry::Session { name, info } => {
                let ghost v = (name@, info.deep_view());
                self.seen.push(key);
                self.found.push((name, info));
                assert(self.seen_view() =~= seen0.push(k));
                assert(self.found_view() =~= found0.push(v));
            },
            _ => {},
        }
    }

    /// The sessions found, in order.
    pub fn into_found(self) -> (r: Vec<(String, SessionInfo)>)
        ensures
            assoc_view(r@) == self.found_view(),
    {
        self.found
    }
}

} // verus!
