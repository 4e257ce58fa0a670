//! Users and sessions that the greeter offers, and the UID range of normal
//! users as `login.defs` sets it.

use vstd::prelude::*;

use crate::assoc::{assoc_insert, assoc_put, assoc_view, find_key, lookup};
use crate::text::{chars_of, is_whitespace, is_ws, parts_after, split_on, trim, trim_range};
use vstd::string::*;

verus! {

/// The lowest UID of a normal user when `login.defs` does not set one.
pub const LOGIN_DEFS_UID_MIN: u64 = 1000;

/// The highest UID of a normal user when `login.defs` does not set one.
pub const LOGIN_DEFS_UID_MAX: u64 = 60000;

/// The value of the digit `c` in any radix up to 36, or 36 if `c` is no digit.
pub open spec fn digit_value(c: char) -> nat {
    if '0' <= c <= '9' {
        (c as nat - '0' as nat) as nat
    } else if 'a' <= c <= 'z' {
        (c as nat - 'a' as nat + 10) as nat
    } else if 'A' <= c <= 'Z' {
        (c as nat - 'A' as nat + 10) as nat
    } else {
        36
    }
}

/// The number that the digits `s` write in radix `radix`.
pub open spec fn digits_value(s: Seq<char>, radix: nat) -> nat
    decreases s.len(),
{
    if s.len() == 0 {
        0
    } else {
        digits_value(s.drop_last(), radix) * radix + digit_value(s.last())
    }
}

/// Whether every character of `s` is a digit in radix `radix`.
pub open spec fn all_digits(s: Seq<char>, radix: nat) -> bool {
    forall|i: int| 0 <= i < s.len() ==> #[trigger] digit_value(s[i]) < radix
}

/// An unsigned integer written in radix `radix`: an optional `+`, then one
/// or more digits, with a value that fits in 64 bits.
pub open spec fn radix_value(s: Seq<char>, radix: nat) -> Option<u64> {
    let d = if s.len() > 0 && s[0] == '+' {
        s.drop_first()
    } else {
        s
    };
    if d.len() > 0 && all_digits(d, radix) && digits_value(d, radix) <= u64::MAX {
        Some(digits_value(d, radix) as u64)
    } else {
        None
    }
}

/// The number that a `login.defs` value writes: `0x` starts a hexadecimal
/// number, `0` an octal one, and anything else a decimal one.
pub open spec fn login_defs_number(s: Seq<char>) -> Option<u64> {
    let t = trim(s);
    if t == seq!['0'] {
        Some(0)
    } else if t.len() > 0 && t[0] == '0' {
        if t.len() > 1 && t[1] == 'x' {
            radix_value(t.subrange(2, t.len() as int), 16)
        } else {
            radix_value(t.drop_first(), 8)
        }
    } else {
        radix_value(t, 10)
    }
}

/// The value of `v[lo..hi]` as an unsigned integer in radix `radix`.
fn parse_radix(v: &Vec<char>, lo: usize, hi: usize, radix: u64) -> (r: Option<u64>)
    requires
        lo <= hi <= v@.len(),
        2 <= radix <= 36,
    ensures
        r == radix_value(v@.subrange(lo as int, hi as int), radix as nat),
{
    let ghost s = v@.subrange(lo as int, hi as int);
    let mut start = lo;
    if lo < hi && v[lo] == '+' {
        start = lo + 1;
    }
    let ghost d = v@.subrange(start as int, hi as int);
    assert(d =~= (if s.len() > 0 && s[0] == '+' { s.drop_first() } else { s }));
    if start == hi {
        return None;
    }
    let mut acc: u64 = 0;
    let mut overflow = false;
    let mut i = start;
    while i < hi
        invariant
            start <= i <= hi <= v@.len(),
            2 <= radix <= 36,
            d == v@.subrange(start as int, hi as int),
            s == v@.subrange(lo as int, hi as int),
            d == (if s.len() > 0 && s[0] == '+' { s.drop_first() } else { s }),
            all_digits(v@.subrange(start as int, i as int), radix as nat),
            overflow ==> digits_value(v@.subrange(start as int, i as int), radix as nat) > u64::MAX,
            !overflow ==> acc == digits_value(v@.subrange(start as int, i as int), radix as nat),
        decreases hi - i,
    {
        let c = v[i];
        let dv: u64 = if '0' <= c && c <= '9' {
            (c as u32 - '0' as u32) as u64
        } else if 'a' <= c && c <= 'z' {
            (c as u32 - 'a' as u32 + 10) as u64
        } else if 'A' <= c && c <= 'Z' {
            (c as u32 - 'A' as u32 + 10) as u64
        } else {
            36
        };
        assert(dv == digit_value(c));
        if dv >= radix {
            assert(d[i - start] == c);
            assert(digit_value(d[i - start]) >= radix as nat);
            assert(!all_digits(d, radix as nat));
            return None;
        }
        let ghost prev = v@.subrange(start as int, i as int);
        let ghost next = v@.subrange(start as int, i + 1);
        assert(next.drop_last() =~= prev);
        assert(next.last() == c);
        assert(digits_value(next, radix as nat) == digits_value(prev, radix as nat) * radix + dv);
        if !overflow {
            match acc.checked_mul(radix) {
                Some(m) => match m.checked_add(dv) {
                    Some(n) => {
                        acc = n;
                    },
                    None => {
                        overflow = true;
                    },
                },
                None => {
                    overflow = true;
                    assert(digits_value(prev, radix as nat) * radix + dv > u64::MAX) by (
                    nonlinear_arith)
                        requires
                            acc == digits_value(prev, radix as nat),
                            acc * radix > u64::MAX,
                            dv >= 0,
                    ;
                },
            }
        } else {
            assert(digits_value(prev, radix as nat) * radix + dv > u64::MAX) by (nonlinear_arith)
                requires
                    digits_value(prev, radix as nat) > u64::MAX,
                    radix >= 2,
                    dv >= 0,
            ;
        }
        i = i + 1;
        assert forall|j: int| 0 <= j < next.len() implies #[trigger] digit_value(next[j])
            < radix as nat by {
            if j < prev.len() {
                assert(next[j] == prev[j]);
            }
        }
    }
    if overflow {
        None
    } else {
        Some(acc)
    }
}

/// The value of `v[lo..hi]` as a `login.defs` number.
fn parse_number_range(v: &Vec<char>, lo: usize, hi: usize) -> (r: Option<u64>)
    requires
        lo <= hi <= v@.len(),
    ensures
        r == login_defs_number(v@.subrange(lo as int, hi as int)),
{
    let (a, b) = trim_range(v, lo, hi);
    let ghost t = v@.subrange(a as int, b as int);
    if b - a == 1 && v[a] == '0' {
        assert(t =~= seq!['0']);
        return Some(0);
    }
    assert(t != seq!['0']);
    if a < b && v[a] == '0' {
        if b - a > 1 && v[a + 1] == 'x' {
            assert(t.subrange(2, t.len() as int) =~= v@.subrange(a + 2, b as int));
            parse_radix(v, a + 2, b, 16)
        } else {
            assert(t.drop_first() =~= v@.subrange(a + 1, b as int));
            parse_radix(v, a + 1, b, 8)
        }
    } else {
        parse_radix(v, a, b, 10)
    }
}

/// The key `UID_MAX` if `max`, else `UID_MIN`.
pub open spec fn uid_key(max: bool) -> Seq<char> {
    seq!['U', 'I', 'D', '_', 'M', if max { 'A' } else { 'I' }, if max { 'X' } else { 'N' }]
}

/// The number that `line` sets `key` to, if it is an entry for `key` whose
/// value parses: after trimming, the key, whitespace, then the value.
pub open spec fn entry_value(line: Seq<char>, key: Seq<char>) -> Option<u64> {
    let t = trim(line);
    if t.len() > 7 && t.subrange(0, 7) == key && is_ws(t[7]) {
        login_defs_number(t.subrange(7, t.len() as int))
    } else {
        None
    }
}

/// The value of the first entry of `lines` that sets `key` to a number.
pub open spec fn setting(lines: Seq<Seq<char>>, key: Seq<char>) -> Option<u64>
    decreases lines.len(),
{
    if lines.len() == 0 {
        None
    } else if setting(lines.drop_last(), key) is Some {
        setting(lines.drop_last(), key)
    } else {
        entry_value(lines.last(), key)
    }
}

/// The value that the line `v[lo..hi]` sets the key `uid_key(max)` to.
fn line_setting(v: &Vec<char>, lo: usize, hi: usize, max: bool) -> (r: Option<u64>)
    requires
        lo <= hi <= v@.len(),
    ensures
        r == entry_value(v@.subrange(lo as int, hi as int), uid_key(max)),
{
    let (a, b) = trim_range(v, lo, hi);
    let ghost t = v@.subrange(a as int, b as int);
    if b - a <= 7 {
        return None;
    }
    let key: [char; 7] = [
        'U',
        'I',
        'D',
        '_',
        'M',
        if max {
            'A'
        } else {
            'I'
        },
        if max {
            'X'
        } else {
            'N'
        },
    ];
    assert(key@ =~= uid_key(max));
    let mut k: usize = 0;
    while k < 7
        invariant
            k <= 7,
            a + 7 < b <= v@.len(),
            t == v@.subrange(a as int, b as int),
            t == trim(v@.subrange(lo as int, hi as int)),
            key@ == uid_key(max),
            forall|j: int| 0 <= j < k ==> v@[a + j] == key@[j],
        decreases 7 - k,
    {
        if v[a + k] != key[k] {
            assert(t.subrange(0, 7)[k as int] != uid_key(max)[k as int]);
            return None;
        }
        k = k + 1;
    }
    assert(t.subrange(0, 7) =~= uid_key(max));
    if !is_whitespace(v[a + 7]) {
        return None;
    }
    assert(t.subrange(7, t.len() as int) =~= v@.subrange(a + 7, b as int));
    parse_number_range(v, a + 7, b)
}

/// The UID range of normal users.
#[derive(Clone, Copy, Debug, PartialEq, Eq, Structural)]
pub struct NormalUser {
    pub uid_min: u64,
    pub uid_max: u64,
}

/// The range that the `login.defs` text `text` sets: each bound is the first
/// entry for it whose value parses, or its default where there is none.
pub open spec fn login_defs_range(text: Seq<char>) -> NormalUser {
    let lines = split_on(text, '\n');
    NormalUser {
        uid_min: match setting(lines, uid_key(false)) {
            Some(n) => n,
            None => LOGIN_DEFS_UID_MIN,
        },
        uid_max: match setting(lines, uid_key(true)) {
            Some(n) => n,
            None => LOGIN_DEFS_UID_MAX,
        },
    }
}

impl Default for NormalUser {
    /// The range used when `login.defs` cannot be read.
    fn default() -> (n: NormalUser)
        ensures
            n.uid_min == LOGIN_DEFS_UID_MIN,
            n.uid_max == LOGIN_DEFS_UID_MAX,
    {
        NormalUser { uid_min: LOGIN_DEFS_UID_MIN, uid_max: LOGIN_DEFS_UID_MAX }
    }
}

impl NormalUser {
    /// Read `UID_MIN` and `UID_MAX` from the text of a `login.defs` file.
    /// A bound that is missing or does not parse keeps its default.
    pub fn parse_login_defs(text: &str) -> (n: NormalUser)
        ensures
            n == login_defs_range(text@),
    {
        let v = chars_of(text);
        let mut min: Option<u64> = None;
        let mut max: Option<u64> = None;
        let ghost done: Seq<Seq<char>> = seq![];
        let mut start: usize = 0;
        let mut i: usize = 0;
        assert(v@.subrange(0, v@.len() as int) =~= text@);
        assert(v@.subrange(0, 0) =~= Seq::<char>::empty());
        assert(done + split_on(text@, '\n') =~= split_on(text@, '\n'));
        while i < v.len()
            invariant
                start <= i <= v@.len(),
                v@ == text@,
                split_on(text@, '\n') == done + parts_after(
                    v@.subrange(i as int, v@.len() as int),
                    v@.subrange(start as int, i as int),
                    '\n',
                ),
                min == setting(done, uid_key(false)),
                max == setting(done, uid_key(true)),
            decreases v@.len() - i,
        {
            let ghost rest = v@.subrange(i as int, v@.len() as int);
            assert(rest.drop_first() =~= v@.subrange(i + 1, v@.len() as int));
            if v[i] == '\n' {
                let line_min = line_setting(&v, start, i, false);
                let line_max = line_setting(&v, start, i, true);
                proof {
                    let line = v@.subrange(start as int, i as int);
                    assert((done.push(line)).drop_last() =~= done);
                    assert(v@.subrange(i + 1, i + 1) =~= Seq::<char>::empty());
                    assert(done + (seq![line] + parts_after(rest.drop_first(), seq![], '\n'))
                        =~= done.push(line) + parts_after(rest.drop_first(), seq![], '\n'));
                    done = done.push(line);
                }
                if min.is_none() {
                    min = line_min;
                }
                if max.is_none() {
                    max = line_max;
                }
                start = i + 1;
            } else {
                assert(v@.subrange(start as int, i as int).push(v[i as int]) =~= v@.subrange(
                    start as int,
                    i + 1,
                ));
            }
            i = i + 1;
        }
        let line_min = line_setting(&v, start, i, false);
        let line_max = line_setting(&v, start, i, true);
        proof {
            let line = v@.subrange(start as int, i as int);
            assert(done.push(line).drop_last() =~= done);
            assert(split_on(text@, '\n') =~= done.push(line));
        }
        if min.is_none() {
            min = line_min;
        }
        if max.is_none() {
            max = line_max;
        }
        NormalUser {
            uid_min: match min {
                Some(n) => n,
                None => LOGIN_DEFS_UID_MIN,
            },
            uid_max: match max {
                Some(n) => n,
                None => LOGIN_DEFS_UID_MAX,
            },
        }
    }

    /// Parse a `login.defs` number: `0x` starts a hexadecimal number, `0` an
    /// octal one, anything else a decimal one. `None` if it does not parse.
    pub fn parse_number(num: &str) -> (r: Option<u64>)
        ensures
            r == login_defs_number(num@),
    {
        let v = chars_of(num);
        assert(v@.subrange(0, v@.len() as int) =~= num@);
        parse_number_range(&v, 0, v.len())
    }

    /// Whether `uid` lies in the range of normal users, bounds included.
    pub fn is_normal_user(&self, uid: u64) -> (b: bool)
        ensures
            b == (self.uid_min <= uid && uid <= self.uid_max),
    {
        self.uid_min <= uid && uid <= self.uid_max
    }
}

/// What shlex makes of `s` as a command line: its words, or `None` where
/// the quoting is broken.
pub uninterp spec fn shell_words(s: Seq<char>) -> Option<Seq<Seq<char>>>;

/// Relies on `shlex::split`: splits a command line into words with POSIX
/// shell quoting, or gives `None` where the quoting is broken.
#[verifier::external_body]
pub(crate) fn split_shell_words(s: &str) -> (r: Option<Vec<String>>)
    ensures
        r is Some <==> shell_words(s@) is Some,
        r is Some ==> r->0.deep_view() == shell_words(s@)->0,
{
    shlex::split(s)
}

/// The display server that a session runs on.
#[derive(Clone, Copy, Debug, PartialEq, Eq, Structural)]
pub enum SessionType {
    X11,
    Wayland,
    Unknown,
}

/// How to start a session.
#[derive(Clone, Debug)]
pub struct SessionInfo {
    pub command: Vec<String>,
    pub sess_type: SessionType,
}

impl DeepView for SessionInfo {
    type V = (Seq<Seq<char>>, SessionType);

    open spec fn deep_view(&self) -> (Seq<Seq<char>>, SessionType) {
        (self.command.deep_view(), self.sess_type)
    }
}

/// One account of the system's user database.
#[derive(Clone, Debug)]
pub struct PasswdEntry {
    /// The login name.
    pub name: String,
    pub uid: u32,
    /// The comment field, whose first comma-separated part is the full name.
    pub gecos: Option<String>,
    /// The login shell, as a command line.
    pub shell: String,
}

/// The part of `g` before its first comma.
pub open spec fn first_field(g: Seq<char>) -> Seq<char>
    decreases g.len(),
{
    if g.len() == 0 || g[0] == ',' {
        seq![]
    } else {
        seq![g[0]] + first_field(g.drop_first())
    }
}

/// The name shown for `e`: the first part of its comment field, or its login
/// name where that field is missing or empty.
pub open spec fn display_name(e: PasswdEntry) -> Seq<char> {
    match e.gecos {
        Some(g) => if g@.len() == 0 {
            e.name@
        } else {
            first_field(g@)
        },
        None => e.name@,
    }
}

/// The full name to login name entries for the normal users among `entries`.
pub open spec fn users_of(entries: Seq<PasswdEntry>, normal: NormalUser) -> Seq<(Seq<char>, Seq<char>)>
    decreases entries.len(),
{
    if entries.len() == 0 {
        seq![]
    } else {
        let prev = users_of(entries.drop_last(), normal);
        let e = entries.last();
        if normal.uid_min <= e.uid <= normal.uid_max {
            assoc_insert(prev, display_name(e), e.name@)
        } else {
            prev
        }
    }
}

/// The login name to shell command entries for the normal users among
/// `entries` whose shell splits into words.
pub open spec fn shells_of(entries: Seq<PasswdEntry>, normal: NormalUser) -> Seq<(Seq<char>, Seq<Seq<char>>)>
    decreases entries.len(),
{
    if entries.len() == 0 {
        seq![]
    } else {
        let prev = shells_of(entries.drop_last(), normal);
        let e = entries.last();
        if normal.uid_min <= e.uid <= normal.uid_max && shell_words(e.shell@) is Some {
            assoc_insert(prev, e.name@, shell_words(e.shell@)->0)
        } else {
            prev
        }
    }
}

/// The name to session entries that `found` gives, a later one with the
/// same name replacing the earlier one.
pub open spec fn sessions_of(found: Seq<(String, SessionInfo)>) -> Seq<(Seq<char>, (Seq<Seq<char>>, SessionType))>
    decreases found.len(),
{
    if found.len() == 0 {
        seq![]
    } else {
        assoc_insert(sessions_of(found.drop_last()), found.last().0@, found.last().1.deep_view())
    }
}

/// The part of `g` before its first comma.
fn first_field_of(g: &String) -> (r: String)
    ensures
        r@ == first_field(g@),
{
    let v = chars_of(g.as_str());
    let mut k: usize = 0;
    while k < v.len() && v[k] != ','
        invariant
            k <= v@.len(),
            v@ == g@,
            forall|j: int| 0 <= j < k ==> v@[j] != ',',
        decreases v@.len() - k,
    {
        k = k + 1;
    }
    proof {
        lemma_first_field(g@, k as int);
    }
    g.as_str().substring_char(0, k).to_owned()
}

proof fn lemma_first_field(g: Seq<char>, k: int)
    requires
        0 <= k <= g.len(),
        forall|j: int| 0 <= j < k ==> g[j] != ',',
        k < g.len() ==> g[k] == ',',
    ensures
        first_field(g) == g.subrange(0, k),
    decreases k,
{
    if k > 0 {
        lemma_first_field(g.drop_first(), k - 1);
        assert(seq![g[0]] + g.drop_first().subrange(0, k - 1) =~= g.subrange(0, k));
    } else {
        assert(g.subrange(0, 0) =~= Seq::<char>::empty());
    }
}

/// The regular users of the system and the sessions it offers.
pub struct SysUtil {
    /// Maps a user's full name to their login name.
    users: Vec<(String, String)>,
    /// Maps a login name to their shell command.
    shells: Vec<(String, Vec<String>)>,
    /// Maps a session's full name to how it is started.
    sessions: Vec<(String, SessionInfo)>,
}

impl SysUtil {
    /// The full name to login name entries.
    pub closed spec fn users_view(&self) -> Seq<(Seq<char>, Seq<char>)> {
        assoc_view(self.users@)
    }

    /// The login name to shell command entries.
    pub closed spec fn shells_view(&self) -> Seq<(Seq<char>, Seq<Seq<char>>)> {
        assoc_view(self.shells@)
    }

    /// The session name to command and display server entries.
    pub closed spec fn sessions_view(&self) -> Seq<(Seq<char>, (Seq<Seq<char>>, SessionType))> {
        assoc_view(self.sessions@)
    }

    /// Gather the normal users among `entries`, those whose UID lies in the
    /// range of `normal_user`, and the sessions `found`.
    pub fn new(normal_user: &NormalUser, entries: Vec<PasswdEntry>, found: Vec<(String, SessionInfo)>) -> (r: SysUtil)
        ensures
            r.users_view() == users_of(entries@, *normal_user),
            r.shells_view() == shells_of(entries@, *normal_user),
            r.sessions_view() == sessions_of(found@),
    {
        let mut users: Vec<(String, String)> = Vec::new();
        let mut shells: Vec<(String, Vec<String>)> = Vec::new();
        let mut i: usize = 0;
        while i < entries.len()
            invariant
                i <= entries@.len(),
                assoc_view(users@) == users_of(entries@.take(i as int), *normal_user),
                assoc_view(shells@) == shells_of(entries@.take(i as int), *normal_user),
            decreases entries@.len() - i,
        {
            let e = &entries[i];
            assert(entries@.take(i + 1).drop_last() =~= entries@.take(i as int));
            if normal_user.is_normal_user(e.uid as u64) {
                let full_name = match &e.gecos {
                    Some(g) => if g.as_str().is_empty() {
                        e.name.clone()
                    } else {
                        first_field_of(g)
                    },
                    None => e.name.clone(),
                };
                assoc_put(&mut users, full_name, e.name.clone());
                match split_shell_words(e.shell.as_str()) {
                    Some(cmd) => assoc_put(&mut shells, e.name.clone(), cmd),
                    None => {},
                }
            }
            i = i + 1;
        }
        let mut sessions: Vec<(String, SessionInfo)> = Vec::new();
        for p in it: found.into_iter()
            invariant
                it.seq() == found@,
                assoc_view(sessions@) == sessions_of(it.seq().take(it.index() as int)),
        {
            assert(it.seq().take(it.index() + 1).drop_last() =~= it.seq().take(it.index() as int));
            let (name, info) = p;
            assoc_put(&mut sessions, name, info);
        }
        assert(entries@.take(entries@.len() as int) =~= entries@);
        assert(found@.take(found@.len() as int) =~= found@);
        SysUtil { users, shells, sessions }
    }

    /// The full name to login name entries. Where a user has no full name,
    /// their login name stands for it.
    pub fn get_users(&self) -> (r: &Vec<(String, String)>)
        ensures
            assoc_view(r@) == self.users_view(),
    {
        &self.users
    }

    /// The login name to shell command entries.
    pub fn get_shells(&self) -> (r: &Vec<(String, Vec<String>)>)
        ensures
            assoc_view(r@) == self.shells_view(),
    {
        &self.shells
    }

    /// The session name to session entries.
    pub fn get_sessions(&self) -> (r: &Vec<(String, SessionInfo)>)
        ensures
            assoc_view(r@) == self.sessions_view(),
    {
        &self.sessions
    }
}

/// The session that the user chose.
#[derive(Clone, Debug)]
pub enum SessionChoice {
    /// A command line typed by the user.
    Manual(String),
    /// One of the sessions found, by name.
    Named(String),
    /// Nothing chosen: the user's login shell.
    Default,
}

/// Why no command could be found for the chosen session.
#[derive(Clone, Copy, Debug, PartialEq, Eq, Structural)]
pub enum CommandError {
    /// The typed command line does not split into words.
    InvalidCommand,
    /// No session has the chosen name.
    SessionNotFound,
    /// The user has no usable login shell.
    NoShell,
}

/// A copy of the strings `v`.
fn copy_strings(v: &Vec<String>) -> (r: Vec<String>)
    ensures
        r.deep_view() == v.deep_view(),
{
    let mut r: Vec<String> = Vec::new();
    let mut i: usize = 0;
    while i < v.len()
        invariant
            i <= v@.len(),
            r@.len() == i,
            forall|k: int| 0 <= k < i ==> #[trigger] r@[k]@ == v@[k]@,
        decreases v@.len() - i,
    {
        r.push(v[i].clone());
        i = i + 1;
    }
    assert(r.deep_view() =~= v.deep_view());
    r
}

impl SysUtil {
    /// The command that starts the session `choice` for `username`, with the
    /// name of the session where one was chosen by name.
    pub fn session_command(&self, choice: &SessionChoice, username: &str) -> (r: Result<
        (Option<String>, Vec<String>),
        CommandError,
    >)
        ensures
            match choice {
                SessionChoice::Manual(text) => match shell_words(text@) {
                    Some(w) => r matches Ok((None, cmd)) && cmd.deep_view() == w,
                    None => r == Err::<(Option<String>, Vec<String>), CommandError>(
                        CommandError::InvalidCommand,
                    ),
                },
                SessionChoice::Named(name) => match lookup(self.sessions_view(), name@) {
                    Some(info) => r matches Ok((Some(n), cmd)) && n@ == name@ && cmd.deep_view()
                        == info.0,
                    None => r == Err::<(Option<String>, Vec<String>), CommandError>(
                        CommandError::SessionNotFound,
                    ),
                },
                SessionChoice::Default => match lookup(self.shells_view(), username@) {
                    Some(cmd_v) => r matches Ok((None, cmd)) && cmd.deep_view() == cmd_v,
                    None => r == Err::<(Option<String>, Vec<String>), CommandError>(
                        CommandError::NoShell,
                    ),
                },
            },
    {
        match choice {
            SessionChoice::Manual(text) => match split_shell_words(text.as_str()) {
                Some(cmd) => Ok((None, cmd)),
                None => Err(CommandError::InvalidCommand),
            },
            SessionChoice::Named(name) => match find_key(&self.sessions, name.as_str()) {
                Some(j) => Ok((Some(name.clone()), copy_strings(&self.sessions[j].1.command))),
                None => Err(CommandError::SessionNotFound),
            },
            SessionChoice::Default => match find_key(&self.shells, username) {
                Some(j) => Ok((None, copy_strings(&self.shells[j].1))),
                None => Err(CommandError::NoShell),
            },
        }
    }
}

/// The environment entries `KEY=VALUE` for the pairs `env`, in order.
pub fn environment_strings(env: &Vec<(String, String)>) -> (r: Vec<String>)
    ensures
        r@.len() == env@.len(),
        forall|i: int| 0 <= i < env@.len() ==> #[trigger] r@[i]@ == env@[i].0@ + seq!['='] + env@[i].1@,
{
    let mut r: Vec<String> = Vec::new();
    let mut i: usize = 0;
    while i < env.len()
        invariant
            i <= env@.len(),
            r@.len() == i,
            forall|k: int| 0 <= k < i ==> #[trigger] r@[k]@ == env@[k].0@ + seq!['='] + env@[k].1@,
        decreases env@.len() - i,
    {
        let eq = String::from_str("=");
        proof {
            reveal_strlit("=");
        }
        assert(eq@ =~= seq!['=']);
        let entry = env[i].0.clone().concat(eq.as_str()).concat(env[i].1.as_str());
        r.push(entry);
        i = i + 1;
    }
    r
}

} // verus!
