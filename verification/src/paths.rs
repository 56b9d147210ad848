//! Where AeroWM keeps its files: path joining, the IPC socket path and
//! the effective user id read from a `/proc/<pid>/status` text.
use vstd::prelude::*;

use crate::bar::{is_white_space, trim_start};
use crate::text::{chars_of, decimal, push_str, to_decimal};

verus! {

/// `dir` extended by `name` as `PathBuf::push` does on Unix: an absolute
/// `name` replaces `dir`; otherwise a `'/'` separates the two unless `dir`
/// is empty or already ends with one.
pub open spec fn joined(dir: Seq<char>, name: Seq<char>) -> Seq<char> {
    if name.len() > 0 && name[0] == '/' {
        name
    } else if dir.len() > 0 && dir.last() != '/' {
        dir + seq!['/'] + name
    } else {
        dir + name
    }
}

/// Joins `name` onto the directory `dir` (see [`joined`]).
pub fn join_path(dir: &str, name: &str) -> (p: String)
    ensures
        p@ == joined(dir@, name@),
{
    let ns = chars_of(name);
    if ns.len() > 0 && ns[0] == '/' {
        let mut p = String::new();
        push_str(&mut p, name);
        assert(p@ =~= name@);
        return p;
    }
    let ds = chars_of(dir);
    let mut p = String::new();
    push_str(&mut p, dir);
    if ds.len() > 0 && ds[ds.len() - 1] != '/' {
        crate::text::string_push(&mut p, '/');
    }
    push_str(&mut p, name);
    assert(p@ =~= joined(dir@, name@));
    p
}

/// The IPC socket path: `aerowm.sock` inside a non-empty runtime
/// directory, otherwise `/tmp/aerowm-<uid>.sock` with the effective uid
/// (0 when unknown), so that users never share a socket.
pub open spec fn spec_ipc_socket_path(runtime_dir: Option<Seq<char>>, euid: Option<u32>) -> Seq<char> {
    match runtime_dir {
        Some(d) if d.len() > 0 => joined(d, "aerowm.sock"@),
        _ => "/tmp/aerowm-"@ + decimal(
            match euid {
                Some(u) => u as nat,
                None => 0,
            },
        ) + ".sock"@,
    }
}

/// Computes the IPC socket path from `$XDG_RUNTIME_DIR` (when set) and the
/// effective user id (when known).
pub fn ipc_socket_path(runtime_dir: Option<&str>, euid: Option<u32>) -> (p: String)
    ensures
        p@ == spec_ipc_socket_path(
            match runtime_dir {
                Some(d) => Some(d@),
                None => None,
            },
            euid,
        ),
{
    if let Some(d) = runtime_dir {
        let ds = chars_of(d);
        if ds.len() > 0 {
            return join_path(d, "aerowm.sock");
        }
    }
    let uid: u32 = match euid {
        Some(u) => u,
        None => 0,
    };
    let mut p = String::new();
    push_str(&mut p, "/tmp/aerowm-");
    let digits = to_decimal(uid as usize);
    push_str(&mut p, digits.as_str());
    push_str(&mut p, ".sock");
    p
}

/// The bar's configuration file: `aerowm/bar.luau` under
/// `$XDG_CONFIG_HOME` when that is set, else `.config/aerowm/bar.luau`
/// under `$HOME` (or under `.` when `$HOME` is unset).
pub fn config_path(xdg_config_home: Option<&str>, home: Option<&str>) -> (p: String)
    ensures
        p@ == match xdg_config_home {
            Some(x) => joined(x@, "aerowm/bar.luau"@),
            None => joined(
                match home {
                    Some(h) => h@,
                    None => "."@,
                },
                ".config/aerowm/bar.luau"@,
            ),
        },
{
    match xdg_config_home {
        Some(x) => join_path(x, "aerowm/bar.luau"),
        None => match home {
            Some(h) => join_path(h, ".config/aerowm/bar.luau"),
            None => join_path(".", ".config/aerowm/bar.luau"),
        },
    }
}

/// Where the session file lives by default: `aerowm-session.json` in the
/// runtime directory when one is set, else in the temporary directory.
pub fn default_session_path(runtime_dir: Option<&str>, temp_dir: &str) -> (p: String)
    ensures
        p@ == joined(
            match runtime_dir {
                Some(d) => d@,
                None => temp_dir@,
            },
            "aerowm-session.json"@,
        ),
{
    match runtime_dir {
        Some(d) => join_path(d, "aerowm-session.json"),
        None => join_path(temp_dir, "aerowm-session.json"),
    }
}

/// The session file: an explicitly configured path as given, else the
/// default one.
pub fn session_file_path(explicit: Option<&str>, runtime_dir: Option<&str>, temp_dir: &str) -> (p:
    String)
    ensures
        p@ == match explicit {
            Some(e) => e@,
            None => joined(
                match runtime_dir {
                    Some(d) => d@,
                    None => temp_dir@,
                },
                "aerowm-session.json"@,
            ),
        },
{
    match explicit {
        Some(e) => {
            let mut p = String::new();
            push_str(&mut p, e);
            assert(p@ =~= e@);
            p
        },
        None => default_session_path(runtime_dir, temp_dir),
    }
}

/// The compositor's Luau configuration: `aerowm/config.luau` under the
/// user's configuration directory, when there is one.
pub fn default_config_path(config_dir: Option<&str>) -> (p: Option<String>)
    ensures
        match config_dir {
            Some(c) => p matches Some(q) && q@ == joined(joined(c@, "aerowm"@), "config.luau"@),
            None => p is None,
        },
{
    match config_dir {
        Some(c) => {
            let d = join_path(c, "aerowm");
            Some(join_path(d.as_str(), "config.luau"))
        },
        None => None,
    }
}

/// Index just past the line that starts at `i`: the first `'\n'` at or
/// after `i`, or the length of `s`.
pub open spec fn line_end(s: Seq<char>, i: int) -> int
    decreases s.len() - i,
{
    if i >= s.len() {
        s.len() as int
    } else if s[i] == '\n' {
        i
    } else {
        line_end(s, i + 1)
    }
}

/// A line ends at or after its start, within the text.
pub proof fn lemma_line_end(s: Seq<char>, i: int)
    requires
        0 <= i <= s.len(),
    ensures
        i <= line_end(s, i) <= s.len(),
    decreases s.len() - i,
{
    if i < s.len() && s[i] != '\n' {
        lemma_line_end(s, i + 1);
    }
}

/// The characters `Uid:` that open the uid line of a status text.
pub open spec fn uid_tag() -> Seq<char> {
    seq!['U', 'i', 'd', ':']
}

/// What follows `Uid:` on the first line, from the line starting at `i`
/// on, that begins with it.
pub open spec fn uid_field(s: Seq<char>, i: int) -> Option<Seq<char>>
    decreases s.len() - i,
{
    if i < 0 || i >= s.len() {
        None
    } else {
        let e = line_end(s, i);
        if e - i >= 4 && s.subrange(i, i + 4) == uid_tag() {
            Some(s.subrange(i + 4, e))
        } else if e >= s.len() {
            None
        } else {
            proof {
                lemma_line_end(s, i);
            }
            uid_field(s, e + 1)
        }
    }
}

/// The leading run of non-white-space characters of `t`.
pub open spec fn word(t: Seq<char>) -> Seq<char>
    decreases t.len(),
{
    if t.len() > 0 && !is_white_space(t[0]) {
        seq![t[0]] + word(t.drop_first())
    } else {
        Seq::empty()
    }
}

/// The first white-space separated word of `t` (empty when there is none).
pub open spec fn first_word(t: Seq<char>) -> Seq<char> {
    word(trim_start(t))
}

/// `c` is an ASCII decimal digit.
pub open spec fn is_digit(c: char) -> bool {
    '0' <= c <= '9'
}

/// All characters are decimal digits.
pub open spec fn all_digits(t: Seq<char>) -> bool {
    forall|i: int| 0 <= i < t.len() ==> is_digit(#[trigger] t[i])
}

/// Value of a string of decimal digits.
pub open spec fn digits_value(t: Seq<char>) -> nat
    decreases t.len(),
{
    if t.len() == 0 {
        0
    } else {
        digits_value(t.drop_last()) * 10 + ((t.last() as nat) - ('0' as nat)) as nat
    }
}

/// `t` read as a `u32` the way `str::parse::<u32>` reads it: an optional
/// `'+'`, then one or more decimal digits whose value fits.
pub open spec fn spec_parse_u32(t: Seq<char>) -> Option<u32> {
    let d = if t.len() > 0 && t[0] == '+' {
        t.drop_first()
    } else {
        t
    };
    if d.len() > 0 && all_digits(d) && digits_value(d) <= u32::MAX {
        Some(digits_value(d) as u32)
    } else {
        None
    }
}

/// The effective uid in a `/proc/<pid>/status` text: the first word after
/// `Uid:` on the first line that starts with it, read as a number.
pub open spec fn spec_parse_euid(status: Seq<char>) -> Option<u32> {
    match uid_field(status, 0) {
        Some(rest) => spec_parse_u32(first_word(rest)),
        None => None,
    }
}

fn find_line_end(cs: &Vec<char>, i: usize) -> (e: usize)
    requires
        i <= cs@.len(),
    ensures
        e == line_end(cs@, i as int),
        i <= e <= cs@.len(),
{
    let mut j: usize = i;
    while j < cs.len() && cs[j] != '\n'
        invariant
            i <= j <= cs@.len(),
            line_end(cs@, i as int) == line_end(cs@, j as int),
        decreases cs@.len() - j,
    {
        j = j + 1;
    }
    j
}

/// Skips white space in `cs[lo..hi]`.
fn skip_white_space(cs: &Vec<char>, lo: usize, hi: usize) -> (k: usize)
    requires
        lo <= hi <= cs@.len(),
    ensures
        lo <= k <= hi,
        trim_start(cs@.subrange(lo as int, hi as int)) == cs@.subrange(k as int, hi as int),
{
    let mut k: usize = lo;
    while k < hi && is_white_space_char(cs[k])
        invariant
            lo <= k <= hi <= cs@.len(),
            trim_start(cs@.subrange(lo as int, hi as int)) == trim_start(
                cs@.subrange(k as int, hi as int),
            ),
        decreases hi - k,
    {
        assert(cs@.subrange(k as int, hi as int).drop_first() =~= cs@.subrange(k + 1, hi as int));
        k = k + 1;
    }
    k
}

fn is_white_space_char(c: char) -> (r: bool)
    ensures
        r == is_white_space(c),
{
    let u = c as u32;
    (0x9 <= u && u <= 0xD) || u == 0x20 || u == 0x85 || u == 0xA0 || u == 0x1680 || (0x2000 <= u
        && u <= 0x200A) || u == 0x2028 || u == 0x2029 || u == 0x202F || u == 0x205F || u == 0x3000
}

/// End of the word that starts at `k` in `cs[k..hi]`.
fn word_end(cs: &Vec<char>, k: usize, hi: usize) -> (m: usize)
    requires
        k <= hi <= cs@.len(),
    ensures
        k <= m <= hi,
        word(cs@.subrange(k as int, hi as int)) == cs@.subrange(k as int, m as int),
{
    let mut j: usize = k;
    while j < hi && !is_white_space_char(cs[j])
        invariant
            k <= j <= hi <= cs@.len(),
            word(cs@.subrange(k as int, hi as int)) == cs@.subrange(k as int, j as int) + word(
                cs@.subrange(j as int, hi as int),
            ),
        decreases hi - j,
    {
        assert(cs@.subrange(j as int, hi as int).drop_first() =~= cs@.subrange(j + 1, hi as int));
        assert(cs@.subrange(k as int, j as int) + seq![cs@[j as int]] =~= cs@.subrange(
            k as int,
            j + 1,
        ));
        assert(cs@.subrange(k as int, j as int) + (seq![cs@[j as int]] + word(
            cs@.subrange(j + 1, hi as int),
        )) =~= cs@.subrange(k as int, j + 1) + word(cs@.subrange(j + 1, hi as int)));
        j = j + 1;
    }
    assert(cs@.subrange(k as int, j as int) + Seq::<char>::empty() =~= cs@.subrange(
        k as int,
        j as int,
    ));
    j
}

/// A prefix of a digit string is worth no more than the whole.
proof fn lemma_digits_prefix(d: Seq<char>, n: int)
    requires
        all_digits(d),
        0 <= n <= d.len(),
    ensures
        digits_value(d.take(n)) <= digits_value(d),
    decreases d.len(),
{
    if n < d.len() {
        let p = d.drop_last();
        assert(all_digits(p)) by {
            assert forall|i: int| 0 <= i < p.len() implies is_digit(#[trigger] p[i]) by {
                assert(p[i] == d[i]);
            }
        }
        lemma_digits_prefix(p, n);
        assert(p.take(n) =~= d.take(n));
    } else {
        assert(d.take(n) =~= d);
    }
}

/// The value of `d` when it is one or more decimal digits worth at most
/// `limit`.
pub open spec fn digits_upto(d: Seq<char>, limit: nat) -> Option<nat> {
    if d.len() > 0 && all_digits(d) && digits_value(d) <= limit {
        Some(digits_value(d))
    } else {
        None
    }
}

/// Reads `cs[lo..hi]` as decimal digits worth at most `limit`.
fn read_digits(cs: &Vec<char>, lo: usize, hi: usize, limit: u64) -> (r: Option<u64>)
    requires
        lo <= hi <= cs@.len(),
        limit <= 0x1_0000_0000,
    ensures
        match digits_upto(cs@.subrange(lo as int, hi as int), limit as nat) {
            Some(v) => r == Some(v as u64),
            None => r is None,
        },
{
    let ghost d = cs@.subrange(lo as int, hi as int);
    if lo == hi {
        return None;
    }
    let mut acc: u64 = 0;
    let mut j: usize = lo;
    while j < hi
        invariant
            lo <= j <= hi <= cs@.len(),
            limit <= 0x1_0000_0000,
            d == cs@.subrange(lo as int, hi as int),
            all_digits(cs@.subrange(lo as int, j as int)),
            acc == digits_value(cs@.subrange(lo as int, j as int)),
            acc <= limit,
        decreases hi - j,
    {
        let c = cs[j];
        let ghost p = cs@.subrange(lo as int, j + 1);
        assert(p.drop_last() =~= cs@.subrange(lo as int, j as int));
        assert(p.last() == c);
        if !('0' <= c && c <= '9') {
            assert(d[j - lo] == c);
            assert(!all_digits(d));
            return None;
        }
        assert(all_digits(p)) by {
            assert forall|i: int| 0 <= i < p.len() implies is_digit(#[trigger] p[i]) by {
                if i < p.len() - 1 {
                    assert(p[i] == cs@.subrange(lo as int, j as int)[i]);
                }
            }
        }
        let v: u64 = acc * 10 + ((c as u32) - ('0' as u32)) as u64;
        assert(digits_value(p) == v);
        if v > limit {
            proof {
                if all_digits(d) {
                    assert(d.take(j + 1 - lo) =~= p);
                    lemma_digits_prefix(d, j + 1 - lo);
                }
            }
            return None;
        }
        acc = v;
        j = j + 1;
    }
    assert(cs@.subrange(lo as int, j as int) =~= d);
    Some(acc)
}

/// Reads `cs[lo..hi]` as a `u32` (see [`spec_parse_u32`]).
fn parse_u32_range(cs: &Vec<char>, lo: usize, hi: usize) -> (r: Option<u32>)
    requires
        lo <= hi <= cs@.len(),
    ensures
        r == spec_parse_u32(cs@.subrange(lo as int, hi as int)),
{
    let ghost t = cs@.subrange(lo as int, hi as int);
    let mut start: usize = lo;
    if lo < hi && cs[lo] == '+' {
        start = lo + 1;
        assert(t[0] == cs@[lo as int]);
        assert(t.drop_first() =~= cs@.subrange(start as int, hi as int));
    } else {
        assert(t.len() > 0 ==> t[0] == cs@[lo as int]);
        assert(t =~= cs@.subrange(start as int, hi as int));
    }
    match read_digits(cs, start, hi, 0xFFFF_FFFF) {
        Some(v) => Some(v as u32),
        None => None,
    }
}

/// `t` read as an `i32` the way `str::parse::<i32>` reads it: an optional
/// sign, then one or more decimal digits whose signed value fits.
pub open spec fn spec_parse_i32(t: Seq<char>) -> Option<i32> {
    if t.len() > 0 && t[0] == '-' {
        match digits_upto(t.drop_first(), 0x8000_0000) {
            Some(v) => Some((-v) as i32),
            None => None,
        }
    } else {
        let d = if t.len() > 0 && t[0] == '+' {
            t.drop_first()
        } else {
            t
        };
        match digits_upto(d, 0x7FFF_FFFF) {
            Some(v) => Some(v as i32),
            None => None,
        }
    }
}

/// A file descriptor number given as text (as `str::parse::<RawFd>`
/// reads it), if it is one.
pub fn parse_fd(text: &str) -> (r: Option<i32>)
    ensures
        r == spec_parse_i32(text@),
{
    let cs = chars_of(text);
    let n = cs.len();
    let ghost t = cs@.subrange(0, n as int);
    assert(t =~= text@);
    if n > 0 && cs[0] == '-' {
        assert(t.drop_first() =~= cs@.subrange(1, n as int));
        match read_digits(&cs, 1, n, 0x8000_0000) {
            Some(v) => {
                let neg: i64 = -(v as i64);
                Some(neg as i32)
            },
            None => None,
        }
    } else {
        let start: usize = if n > 0 && cs[0] == '+' {
            1
        } else {
            0
        };
        if start == 1 {
            assert(t.drop_first() =~= cs@.subrange(1, n as int));
        }
        match read_digits(&cs, start, n, 0x7FFF_FFFF) {
            Some(v) => Some(v as i32),
            None => None,
        }
    }
}

/// Socket names tried when binding a fresh Wayland socket: the requested
/// `$WAYLAND_DISPLAY` first (when set), then `aerowm-0` to `aerowm-31`.
pub open spec fn spec_socket_candidates(wanted: Option<Seq<char>>) -> Seq<Seq<char>> {
    let numbered = Seq::new(32, |i: int| "aerowm-"@ + decimal(i as nat));
    match wanted {
        Some(w) => seq![w] + numbered,
        None => numbered,
    }
}

/// The socket names to try, in order (see [`spec_socket_candidates`]).
pub fn socket_candidates(wanted: Option<&str>) -> (v: Vec<String>)
    ensures
        v@.map_values(|s: String| s@) == spec_socket_candidates(
            match wanted {
                Some(w) => Some(w@),
                None => None,
            },
        ),
{
    let ghost target = spec_socket_candidates(
        match wanted {
            Some(w) => Some(w@),
            None => None,
        },
    );
    let mut v: Vec<String> = Vec::new();
    let ghost base: int = 0;
    match wanted {
        Some(w) => {
            let mut s = String::new();
            push_str(&mut s, w);
            assert(s@ =~= w@);
            v.push(s);
            proof {
                base = 1;
            }
        },
        None => {},
    }
    let mut i: usize = 0;
    while i < 32
        invariant
            i <= 32,
            base == (if wanted is Some { 1int } else { 0int }),
            v@.len() == base + i,
            target.len() == base + 32,
            target == spec_socket_candidates(
                match wanted {
                    Some(w) => Some(w@),
                    None => None,
                },
            ),
            forall|k: int| 0 <= k < v@.len() ==> (#[trigger] v@[k])@ == target[k],
        decreases 32 - i,
    {
        let mut s = String::new();
        push_str(&mut s, "aerowm-");
        let digits = to_decimal(i);
        push_str(&mut s, digits.as_str());
        proof {
            let numbered = Seq::new(32, |j: int| "aerowm-"@ + decimal(j as nat));
            assert(s@ =~= "aerowm-"@ + decimal(i as nat));
            assert(target[base + i] == numbered[i as int]);
        }
        v.push(s);
        i = i + 1;
    }
    assert(v@.map_values(|s: String| s@) =~= target);
    v
}

/// The effective uid in a `/proc/<pid>/status` text, if it names one.
pub fn parse_euid(status: &str) -> (r: Option<u32>)
    ensures
        r == spec_parse_euid(status@),
{
    let cs = chars_of(status);
    let mut i: usize = 0;
    while i < cs.len()
        invariant
            i <= cs@.len(),
            cs@ == status@,
            uid_field(cs@, 0) == uid_field(cs@, i as int),
        decreases cs@.len() - i,
    {
        let e = find_line_end(&cs, i);
        let tagged = e - i >= 4 && cs[i] == 'U' && cs[i + 1] == 'i' && cs[i + 2] == 'd' && cs[i + 3]
            == ':';
        proof {
            if e - i >= 4 {
                let sub = cs@.subrange(i as int, i + 4);
                if tagged {
                    assert(sub =~= uid_tag());
                } else {
                    assert(sub[0] == cs@[i as int] && sub[1] == cs@[i + 1] && sub[2] == cs@[i + 2]
                        && sub[3] == cs@[i + 3]);
                    assert(sub != uid_tag());
                }
            }
        }
        if tagged {
            let k = skip_white_space(&cs, i + 4, e);
            let m = word_end(&cs, k, e);
            return parse_u32_range(&cs, k, m);
        }
        if e >= cs.len() {
            return None;
        }
        i = e + 1;
    }
    None
}

} // verus!
