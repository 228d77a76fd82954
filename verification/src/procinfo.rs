//! Telling whether a process is the configured game, from what `/proc`
//! shows of it: executable basenames (Windows paths included), the `.exe`
//! argument a Wine/Proton loader carries, the scheduler state, and the
//! child list. Also the identity registry that notices when a device node
//! is taken over by a different physical device.
//!
//! Reading `/proc` is the caller's part; everything here works on what was
//! read.

use vstd::prelude::*;
use crate::namemap::{NameMap, insert_spec, lookup, remove_spec};
use crate::text::{
    ascii_lower_seq, chars_of, ends_with_spec, is_ws, lowercase, owned, parse_u32_chars, parse_u32_spec,
    str_eq, string_from_chars, to_ascii_lowercase, to_lowercase, trim, trim_end_by, trim_spec,
};

verus! {

// ── Basenames ───────────────────────────────────────────────────────────

/// Backslashes (Windows separators) turned into slashes.
pub open spec fn slashes(s: Seq<char>) -> Seq<char> {
    s.map_values(|c: char| if c == '\\' {
        '/'
    } else {
        c
    })
}

pub open spec fn nul_char() -> spec_fn(char) -> bool {
    |c: char| c == '\0'
}

/// What follows the last `/` (all of `s` when there is none).
pub open spec fn after_last_slash(s: Seq<char>) -> Seq<char>
    decreases s.len(),
{
    if s.len() == 0 {
        s
    } else if s.last() == '/' {
        Seq::empty()
    } else {
        after_last_slash(s.drop_last()).push(s.last())
    }
}

/// The case-insensitive basename of a path: separators normalised,
/// trailing NULs and surrounding whitespace dropped, lowercased, last
/// component.
pub open spec fn basename_spec(s: Seq<char>) -> Seq<char> {
    after_last_slash(lowercase(trim_spec(trim_end_by(slashes(s), nul_char()))))
}

fn after_last_slash_exec(cs: &Vec<char>) -> (r: Vec<char>)
    ensures
        r@ == after_last_slash(cs@),
{
    let mut start: usize = 0;
    let mut i: usize = 0;
    while i < cs.len()
        invariant
            i <= cs@.len(),
            start <= i,
            cs@.subrange(start as int, i as int) == after_last_slash(cs@.take(i as int)),
        decreases cs@.len() - i,
    {
        proof {
            assert(cs@.take(i + 1).drop_last() =~= cs@.take(i as int));
            assert(cs@.take(i + 1).last() == cs@[i as int]);
        }
        if cs[i] == '/' {
            start = i + 1;
            proof {
                assert(cs@.subrange(start as int, i + 1) =~= Seq::<char>::empty());
            }
        } else {
            proof {
                assert(cs@.subrange(start as int, i + 1) =~= cs@.subrange(start as int, i as int).push(
                    cs@[i as int],
                ));
            }
        }
        i += 1;
    }
    proof {
        assert(cs@.take(cs@.len() as int) =~= cs@);
    }
    crate::text::char_range(cs.as_slice(), start, cs.len())
}

/// Case-insensitive basename of a path, normalising Windows separators.
pub fn path_basename_ci(s: &str) -> (r: String)
    ensures
        r@ == basename_spec(s@),
{
    let cs = chars_of(s);
    let mut norm: Vec<char> = Vec::new();
    let mut i: usize = 0;
    while i < cs.len()
        invariant
            i <= cs@.len(),
            cs@ == s@,
            norm@ == slashes(cs@.take(i as int)),
        decreases cs@.len() - i,
    {
        let c = cs[i];
        norm.push(if c == '\\' {
            '/'
        } else {
            c
        });
        proof {
            assert(slashes(cs@.take(i + 1)) =~= slashes(cs@.take(i as int)).push(
                if c == '\\' {
                    '/'
                } else {
                    c
                },
            ));
        }
        i += 1;
    }
    proof {
        assert(cs@.take(cs@.len() as int) =~= cs@);
    }
    let mut end: usize = norm.len();
    proof {
        assert(norm@.take(norm@.len() as int) =~= norm@);
    }
    while end > 0 && norm[end - 1] == '\0'
        invariant
            end <= norm@.len(),
            trim_end_by(norm@, nul_char()) == trim_end_by(norm@.take(end as int), nul_char()),
        decreases end,
    {
        proof {
            assert(norm@.take(end as int).drop_last() =~= norm@.take(end - 1));
            assert(norm@.take(end as int).last() == norm@[end - 1]);
        }
        end -= 1;
    }
    proof {
        if end > 0 {
            assert(norm@.take(end as int).last() == norm@[end - 1]);
        }
        assert(norm@.take(norm@.len() as int) =~= norm@);
    }
    let kept = crate::text::char_range(norm.as_slice(), 0, end);
    proof {
        assert(kept@ =~= norm@.take(end as int));
    }
    let kept_s = string_from_chars(kept.as_slice());
    let trimmed = trim(kept_s.as_str());
    let lowered = to_lowercase(trimmed.as_str());
    let lc = chars_of(lowered.as_str());
    let base = after_last_slash_exec(&lc);
    string_from_chars(base.as_slice())
}

// ── Command lines ───────────────────────────────────────────────────────

/// What `String::from_utf8_lossy` makes of a byte buffer: the text it
/// encodes, with each invalid sequence replaced by U+FFFD.
pub uninterp spec fn utf8_lossy(bytes: Seq<u8>) -> Seq<char>;

/// `String::from_utf8_lossy`. Claims that the result is the named
/// function of the bytes, and, as its documentation says, that valid UTF-8
/// is decoded as it is.
#[verifier::external_body]
fn lossy_text(bytes: &[u8]) -> (r: String)
    ensures
        r@ == utf8_lossy(bytes@),
        vstd::utf8::valid_utf8(bytes@) ==> r@ == vstd::utf8::decode_utf8(bytes@),
{
    String::from_utf8_lossy(bytes).into_owned()
}

/// The non-empty NUL-separated arguments of a command-line buffer, in order.
pub open spec fn cmd_args(data: Seq<u8>) -> Seq<Seq<u8>> {
    let (done, cur) = split_nul(data);
    if cur.len() > 0 {
        done.push(cur)
    } else {
        done
    }
}

/// The complete non-empty arguments and the argument still being read.
pub open spec fn split_nul(data: Seq<u8>) -> (Seq<Seq<u8>>, Seq<u8>)
    decreases data.len(),
{
    if data.len() == 0 {
        (Seq::empty(), Seq::empty())
    } else {
        let (done, cur) = split_nul(data.drop_last());
        if data.last() == 0 {
            if cur.len() > 0 {
                (done.push(cur), Seq::empty())
            } else {
                (done, Seq::empty())
            }
        } else {
            (done, cur.push(data.last()))
        }
    }
}

/// The basename of the last argument whose text ends in `.exe` (ASCII
/// case-insensitively).
pub open spec fn last_exe_in(args: Seq<Seq<u8>>) -> Option<Seq<char>>
    decreases args.len(),
{
    if args.len() == 0 {
        None
    } else {
        let s = utf8_lossy(args.last());
        if ends_with_spec(ascii_lower_seq(s), ".exe"@) {
            Some(basename_spec(s))
        } else {
            last_exe_in(args.drop_last())
        }
    }
}

pub open spec fn last_exe_basename(data: Seq<u8>) -> Option<Seq<char>> {
    last_exe_in(cmd_args(data))
}

fn exe_arg_basename(arg: &[u8]) -> (r: Option<String>)
    ensures
        match r {
            Some(b) => ends_with_spec(ascii_lower_seq(utf8_lossy(arg@)), ".exe"@) && b@ == basename_spec(
                utf8_lossy(arg@),
            ),
            None => !ends_with_spec(ascii_lower_seq(utf8_lossy(arg@)), ".exe"@),
        },
{
    let s = lossy_text(arg);
    let lowered = to_ascii_lowercase(s.as_str());
    let lc = chars_of(lowered.as_str());
    let suffix = chars_of(".exe");
    if crate::text::ends_with(lc.as_slice(), suffix.as_slice()) {
        Some(path_basename_ci(s.as_str()))
    } else {
        None
    }
}

/// The basename of the last `.exe` argument of a `/proc/<pid>/cmdline`
/// buffer; `None` for an empty buffer or one without such an argument.
pub fn parse_cmdline_last_exe_basename(data: &[u8]) -> (r: Option<String>)
    ensures
        match r {
            Some(s) => last_exe_basename(data@) == Some(s@),
            None => last_exe_basename(data@) is None,
        },
{
    let mut last: Option<String> = None;
    let mut cur: Vec<u8> = Vec::new();
    let mut i: usize = 0;
    while i < data.len()
        invariant
            i <= data@.len(),
            split_nul(data@.take(i as int)).1 == cur@,
            match last {
                Some(s) => last_exe_in(split_nul(data@.take(i as int)).0) == Some(s@),
                None => last_exe_in(split_nul(data@.take(i as int)).0) is None,
            },
        decreases data@.len() - i,
    {
        proof {
            assert(data@.take(i + 1).drop_last() =~= data@.take(i as int));
            assert(data@.take(i + 1).last() == data@[i as int]);
        }
        let b = data[i];
        if b == 0 {
            if cur.len() > 0 {
                match exe_arg_basename(cur.as_slice()) {
                    Some(s) => {
                        last = Some(s);
                    },
                    None => {},
                }
                proof {
                    let done = split_nul(data@.take(i as int)).0;
                    assert(done.push(cur@).drop_last() =~= done);
                }
            }
            cur = Vec::new();
        } else {
            cur.push(b);
        }
        i += 1;
    }
    proof {
        assert(data@.take(data@.len() as int) =~= data@);
    }
    if cur.len() > 0 {
        proof {
            let done = split_nul(data@).0;
            assert(done.push(cur@).drop_last() =~= done);
        }
        match exe_arg_basename(cur.as_slice()) {
            Some(s) => {
                return Some(s);
            },
            None => {},
        }
    }
    last
}

// ── `/proc` text files ──────────────────────────────────────────────────

/// The complete whitespace-separated words and the word still being read.
pub open spec fn split_ws(s: Seq<char>) -> (Seq<Seq<char>>, Seq<char>)
    decreases s.len(),
{
    if s.len() == 0 {
        (Seq::empty(), Seq::empty())
    } else {
        let (done, cur) = split_ws(s.drop_last());
        if is_ws(s.last()) {
            if cur.len() > 0 {
                (done.push(cur), Seq::empty())
            } else {
                (done, Seq::empty())
            }
        } else {
            (done, cur.push(s.last()))
        }
    }
}

/// `str::split_whitespace`: the words, in order.
pub open spec fn words(s: Seq<char>) -> Seq<Seq<char>> {
    let (done, cur) = split_ws(s);
    if cur.len() > 0 {
        done.push(cur)
    } else {
        done
    }
}

/// The words that read as `u32`s, read.
pub open spec fn numbers_of(ws: Seq<Seq<char>>) -> Seq<u32>
    decreases ws.len(),
{
    if ws.len() == 0 {
        Seq::empty()
    } else {
        match parse_u32_spec(ws.last()) {
            Some(n) => numbers_of(ws.drop_last()).push(n),
            None => numbers_of(ws.drop_last()),
        }
    }
}

/// The pids listed in a `/proc/<pid>/task/<tid>/children` file.
pub fn parse_child_pids(text: &str) -> (r: Vec<u32>)
    ensures
        r@ == numbers_of(words(text@)),
{
    let cs = chars_of(text);
    let mut out: Vec<u32> = Vec::new();
    let mut cur: Vec<char> = Vec::new();
    let mut i: usize = 0;
    while i < cs.len()
        invariant
            i <= cs@.len(),
            cs@ == text@,
            split_ws(cs@.take(i as int)).1 == cur@,
            out@ == numbers_of(split_ws(cs@.take(i as int)).0),
        decreases cs@.len() - i,
    {
        proof {
            assert(cs@.take(i + 1).drop_last() =~= cs@.take(i as int));
            assert(cs@.take(i + 1).last() == cs@[i as int]);
        }
        let c = cs[i];
        if crate::text::is_ws_char(c) {
            if cur.len() > 0 {
                proof {
                    let done = split_ws(cs@.take(i as int)).0;
                    assert(done.push(cur@).drop_last() =~= done);
                }
                match parse_u32_chars(cur.as_slice()) {
                    Some(n) => out.push(n),
                    None => {},
                }
            }
            cur = Vec::new();
        } else {
            cur.push(c);
        }
        i += 1;
    }
    proof {
        assert(cs@.take(cs@.len() as int) =~= cs@);
    }
    if cur.len() > 0 {
        proof {
            let done = split_ws(cs@).0;
            assert(done.push(cur@).drop_last() =~= done);
        }
        match parse_u32_chars(cur.as_slice()) {
            Some(n) => out.push(n),
            None => {},
        }
    }
    out
}

// ── Device identities ───────────────────────────────────────────────────

/// The identity (unique id, physical path, name) each device node was
/// opened with.
pub struct DeviceIdentities {
    pub map: NameMap<(String, String, String)>,
}

impl DeviceIdentities {
    pub fn new() -> (r: DeviceIdentities)
        ensures
            r.map@ == Seq::<(Seq<char>, (Seq<char>, Seq<char>, Seq<char>))>::empty(),
    {
        DeviceIdentities { map: NameMap::new() }
    }
}

/// Remember which device was opened at `path`.
pub fn remember_identity(ids: &mut DeviceIdentities, path: &str, uniq: &str, phys: &str, name: &str)
    ensures
        final(ids).map@ == insert_spec(old(ids).map@, path@, (uniq@, phys@, name@)),
{
    ids.map.insert(owned(path), (owned(uniq), owned(phys), owned(name)));
}

/// Forget the device at `path`.
pub fn forget_identity(ids: &mut DeviceIdentities, path: &str)
    ensures
        final(ids).map@ == remove_spec(old(ids).map@, path@),
{
    ids.map.remove(path);
}

/// Whether the device now at `path` is the one opened there: an unknown
/// path counts as the same; otherwise all three of unique id, physical path
/// and name must be unchanged.
pub fn same_identity(ids: &DeviceIdentities, path: &str, uniq: &str, phys: &str, name: &str) -> (r: bool)
    ensures
        r == match lookup(ids.map@, path@) {
            Some(id) => id.0 == uniq@ && id.1 == phys@ && id.2 == name@,
            None => true,
        },
{
    match ids.map.get(path) {
        Some(id) => str_eq(id.0.as_str(), uniq) && str_eq(id.1.as_str(), phys) && str_eq(id.2.as_str(), name),
        None => true,
    }
}

/// A device remembered at a path reads back as the same device, and a
/// change of any one of its three identity fields is noticed.
pub proof fn lemma_identity_round_trip(
    m: Seq<(Seq<char>, (Seq<char>, Seq<char>, Seq<char>))>,
    path: Seq<char>,
    id: (Seq<char>, Seq<char>, Seq<char>),
    other: (Seq<char>, Seq<char>, Seq<char>),
)
    requires
        crate::namemap::sorted_keys(m),
    ensures
        lookup(insert_spec(m, path, id), path) == Some(id),
        other != id ==> lookup(insert_spec(m, path, id), path) != Some(other),
{
    crate::namemap::lemma_insert_lookup(m, path, id, path);
}

/// The segments of a text between newlines, in order (empty ones too).
pub open spec fn split_lines(s: Seq<char>) -> (Seq<Seq<char>>, Seq<char>)
    decreases s.len(),
{
    if s.len() == 0 {
        (Seq::empty(), Seq::empty())
    } else {
        let (done, cur) = split_lines(s.drop_last());
        if s.last() == '\n' {
            (done.push(cur), Seq::empty())
        } else {
            (done, cur.push(s.last()))
        }
    }
}

pub open spec fn line_segments(s: Seq<char>) -> Seq<Seq<char>> {
    split_lines(s).0.push(split_lines(s).1)
}

pub open spec fn state_line() -> spec_fn(Seq<char>) -> bool {
    |l: Seq<char>| crate::text::starts_with_spec(l, "State:"@)
}

/// The scheduler state in a `/proc/<pid>/status` text: the first word
/// after `State:` on the first line that starts with it.
pub open spec fn status_state(text: Seq<char>) -> Option<Seq<char>> {
    let ls = line_segments(text);
    match crate::document::first_index(ls, state_line()) {
        Some(i) => {
            let ws = words(ls[i].skip(6));
            if ws.len() > 0 {
                Some(ws[0])
            } else {
                None
            }
        },
        None => None,
    }
}

fn split_words(cs: &Vec<char>) -> (r: Vec<Vec<char>>)
    ensures
        r@.len() == words(cs@).len(),
        forall|k: int| 0 <= k < r@.len() ==> #[trigger] r@[k]@ == words(cs@)[k],
{
    let mut out: Vec<Vec<char>> = Vec::new();
    let mut cur: Vec<char> = Vec::new();
    let mut i: usize = 0;
    while i < cs.len()
        invariant
            i <= cs@.len(),
            split_ws(cs@.take(i as int)).1 == cur@,
            out@.len() == split_ws(cs@.take(i as int)).0.len(),
            forall|k: int| 0 <= k < out@.len() ==> #[trigger] out@[k]@ == split_ws(cs@.take(i as int)).0[k],
        decreases cs@.len() - i,
    {
        proof {
            assert(cs@.take(i + 1).drop_last() =~= cs@.take(i as int));
            assert(cs@.take(i + 1).last() == cs@[i as int]);
        }
        let c = cs[i];
        if crate::text::is_ws_char(c) {
            if cur.len() > 0 {
                out.push(cur);
            }
            cur = Vec::new();
        } else {
            cur.push(c);
        }
        i += 1;
    }
    proof {
        assert(cs@.take(cs@.len() as int) =~= cs@);
    }
    if cur.len() > 0 {
        out.push(cur);
    }
    out
}

/// The scheduler state letter in a `/proc/<pid>/status` text.
pub fn state_from_status(text: &str) -> (r: Option<String>)
    ensures
        match r {
            Some(st) => status_state(text@) == Some(st@),
            None => status_state(text@) is None,
        },
{
    let cs = chars_of(text);
    let mut lines: Vec<Vec<char>> = Vec::new();
    let mut cur: Vec<char> = Vec::new();
    let mut i: usize = 0;
    while i < cs.len()
        invariant
            i <= cs@.len(),
            cs@ == text@,
            split_lines(cs@.take(i as int)).1 == cur@,
            lines@.len() == split_lines(cs@.take(i as int)).0.len(),
            forall|k: int| 0 <= k < lines@.len() ==> #[trigger] lines@[k]@ == split_lines(cs@.take(i as int)).0[k],
        decreases cs@.len() - i,
    {
        proof {
            assert(cs@.take(i + 1).drop_last() =~= cs@.take(i as int));
            assert(cs@.take(i + 1).last() == cs@[i as int]);
        }
        let c = cs[i];
        if c == '\n' {
            lines.push(cur);
            cur = Vec::new();
        } else {
            cur.push(c);
        }
        i += 1;
    }
    proof {
        assert(cs@.take(cs@.len() as int) =~= cs@);
    }
    lines.push(cur);
    let ghost ls = line_segments(text@);
    let prefix = chars_of("State:");
    proof {
        reveal_strlit("State:");
    }
    let mut j: usize = 0;
    while j < lines.len()
        invariant
            j <= lines@.len(),
            lines@.len() == ls.len(),
            prefix@ == "State:"@,
            prefix@.len() == 6,
            ls == line_segments(text@),
            forall|k: int| 0 <= k < lines@.len() ==> #[trigger] lines@[k]@ == ls[k],
            forall|k: int| 0 <= k < j ==> !state_line()(#[trigger] ls[k]),
        decreases lines@.len() - j,
    {
        if crate::text::starts_with(lines[j].as_slice(), prefix.as_slice()) {
            proof {
                assert(state_line()(ls[j as int]));
                crate::document::lemma_first_index(ls, state_line(), j as int);
            }
            let n = lines[j].len();
            let rest = crate::text::char_range(lines[j].as_slice(), 6, n);
            proof {
                assert(rest@ =~= ls[j as int].skip(6));
            }
            let ws = split_words(&rest);
            if ws.len() > 0 {
                let st = string_from_chars(ws[0].as_slice());
                proof {
                    assert(ws@[0]@ == words(ls[j as int].skip(6))[0]);
                }
                return Some(st);
            }
            return None;
        }
        j += 1;
    }
    proof {
        crate::document::lemma_first_index(ls, state_line(), j as int);
    }
    None
}

// ── Matching a process against the game ─────────────────────────────────

/// What `/proc` showed of one process.
#[derive(Debug)]
pub struct ProcSnapshot {
    pub pid: u32,
    /// The scheduler state letter (`R`, `S`, `Z`, ...), when readable.
    pub state: Option<String>,
    /// The `exe` link's target, when readable.
    pub exe: Option<String>,
    /// The `comm` text, when readable.
    pub comm: Option<String>,
    /// The `cmdline` bytes, when readable.
    pub cmdline: Option<Vec<u8>>,
    /// The process's children, as far as they were read.
    pub children: Vec<ProcSnapshot>,
}

pub struct ProcV {
    pub pid: u32,
    pub state: Option<Seq<char>>,
    pub exe: Option<Seq<char>>,
    pub comm: Option<Seq<char>>,
    pub cmdline: Option<Seq<u8>>,
    pub children: Seq<ProcV>,
}

pub open spec fn proc_view(p: ProcSnapshot) -> ProcV
    decreases p,
{
    ProcV {
        pid: p.pid,
        state: opt_str(p.state),
        exe: opt_str(p.exe),
        comm: opt_str(p.comm),
        cmdline: match p.cmdline {
            Some(c) => Some(c@),
            None => None,
        },
        children: Seq::new(
            p.children@.len(),
            |i: int|
                if 0 <= i < p.children@.len() {
                    proc_view(p.children@[i])
                } else {
                    ProcV { pid: 0, state: None, exe: None, comm: None, cmdline: None, children: Seq::empty() }
                },
        ),
    }
}

pub open spec fn opt_str(o: Option<String>) -> Option<Seq<char>> {
    match o {
        Some(s) => Some(s@),
        None => None,
    }
}

impl View for ProcSnapshot {
    type V = ProcV;

    open spec fn view(&self) -> ProcV {
        proc_view(*self)
    }
}

pub open spec fn is_zombie_spec(p: ProcV) -> bool {
    p.state == Some("Z"@)
}

/// The `exe` link names the game.
pub open spec fn exe_hit(p: ProcV, want: Seq<char>) -> bool {
    p.exe matches Some(t) && basename_spec(t).len() > 0 && basename_spec(t) == want
}

/// The command line's last `.exe` argument names the game.
pub open spec fn cmdline_hit(p: ProcV, want: Seq<char>) -> bool {
    p.cmdline matches Some(d) && (last_exe_basename(d) matches Some(g) && g.len() > 0 && g == want)
}

/// A live child (not pid 0, not this program, not a zombie) whose `exe`
/// or command line names the game.
pub open spec fn child_hit(c: ProcV, own: u32, want: Seq<char>) -> bool {
    c.pid != 0 && c.pid != own && !is_zombie_spec(c) && (exe_hit(c, want) || cmdline_hit(c, want))
}

pub open spec fn after_comm(p: ProcV, own: u32, want: Seq<char>) -> bool {
    cmdline_hit(p, want) || exists|k: int| 0 <= k < p.children.len() && child_hit(#[trigger] p.children[k], own, want)
}

/// Whether a process runs the game whose executable basename is `want`:
/// never for an empty name, pid 0, this program or a zombie; then by the
/// `exe` link, by `comm` (a name of 15 bytes may be the truncation of a
/// longer one; an empty `comm` ends the search), by the command line's last
/// `.exe` argument, and by the same checks on each child.
pub open spec fn exe_matches_spec(p: ProcV, own: u32, want: Seq<char>) -> bool {
    if want.len() == 0 || p.pid == 0 || p.pid == own || is_zombie_spec(p) {
        false
    } else if exe_hit(p, want) {
        true
    } else {
        match p.comm {
            Some(c) => {
                let got = basename_spec(c);
                if got.len() == 0 {
                    false
                } else if got == want {
                    true
                } else if vstd::utf8::encode_utf8(got).len() == 15 && vstd::utf8::encode_utf8(want).len() > 15
                    && crate::text::starts_with_spec(want, got) {
                    true
                } else {
                    after_comm(p, own, want)
                }
            },
            None => after_comm(p, own, want),
        }
    }
}

/// A live process, searched for a game with a non-empty basename, whose
/// `comm` (if it has one) is not empty, runs the game when its own `exe`
/// link names the game, and also when any of its live children's `exe`
/// link does (a launcher whose child is the game).
pub proof fn lemma_exe_link_names_the_game(p: ProcV, own: u32, want: Seq<char>, k: int)
    requires
        want.len() > 0,
        p.pid != 0,
        p.pid != own,
        p.state != Some("Z"@),
        p.comm matches Some(c) ==> basename_spec(c).len() > 0,
    ensures
        (p.exe matches Some(t) && basename_spec(t) == want) ==> exe_matches_spec(p, own, want),
        (0 <= k < p.children.len() && p.children[k].pid != 0 && p.children[k].pid != own
            && p.children[k].state != Some("Z"@) && (p.children[k].exe matches Some(t) && basename_spec(t) == want))
            ==> exe_matches_spec(p, own, want),
{
    if 0 <= k < p.children.len() {
        let c = p.children[k];
        if c.pid != 0 && c.pid != own && c.state != Some("Z"@) && (c.exe matches Some(t) && basename_spec(t) == want) {
            assert(child_hit(c, own, want));
        }
    }
}

/// Nothing is the game for an empty basename, for pid 0, for this program
/// itself, or for a zombie.
pub proof fn lemma_never_matches(p: ProcV, own: u32, want: Seq<char>)
    ensures
        want.len() == 0 ==> !exe_matches_spec(p, own, want),
        p.pid == 0 ==> !exe_matches_spec(p, own, want),
        p.pid == own ==> !exe_matches_spec(p, own, want),
        p.state == Some("Z"@) ==> !exe_matches_spec(p, own, want),
{
}

fn is_zombie(p: &ProcSnapshot) -> (r: bool)
    ensures
        r == is_zombie_spec(p@),
{
    match &p.state {
        Some(s) => str_eq(s.as_str(), "Z"),
        None => false,
    }
}

fn exe_names(p: &ProcSnapshot, want: &str) -> (r: bool)
    ensures
        r == exe_hit(p@, want@),
{
    match &p.exe {
        Some(t) => {
            let got = path_basename_ci(t.as_str());
            !got.as_str().is_empty() && str_eq(got.as_str(), want)
        },
        None => false,
    }
}

fn cmdline_names(p: &ProcSnapshot, want: &str) -> (r: bool)
    ensures
        r == cmdline_hit(p@, want@),
{
    match &p.cmdline {
        Some(d) => match parse_cmdline_last_exe_basename(d.as_slice()) {
            Some(got) => !got.as_str().is_empty() && str_eq(got.as_str(), want),
            None => false,
        },
        None => false,
    }
}

/// Whether the process (or one of its children) runs the game whose
/// executable basename is `want_basename`.
pub fn exe_basename_matches(p: &ProcSnapshot, own_pid: u32, want_basename: &str) -> (r: bool)
    ensures
        r == exe_matches_spec(p@, own_pid, want_basename@),
{
    if want_basename.is_empty() {
        return false;
    }
    if p.pid == 0 || p.pid == own_pid {
        return false;
    }
    if is_zombie(p) {
        return false;
    }
    if exe_names(p, want_basename) {
        return true;
    }
    match &p.comm {
        Some(comm) => {
            let got = path_basename_ci(comm.as_str());
            if got.as_str().is_empty() {
                return false;
            }
            if str_eq(got.as_str(), want_basename) {
                return true;
            }
            let gc = chars_of(got.as_str());
            let wc = chars_of(want_basename);
            if got.as_str().as_bytes().len() == 15 && want_basename.as_bytes().len() > 15 && crate::text::starts_with(
                wc.as_slice(),
                gc.as_slice(),
            ) {
                return true;
            }
        },
        None => {},
    }
    if cmdline_names(p, want_basename) {
        return true;
    }
    assert(exe_matches_spec(p@, own_pid, want_basename@) == after_comm(p@, own_pid, want_basename@));
    let mut k: usize = 0;
    while k < p.children.len()
        invariant
            k <= p.children@.len(),
            exe_matches_spec(p@, own_pid, want_basename@) == after_comm(p@, own_pid, want_basename@),
            !cmdline_hit(p@, want_basename@),
            p@.children.len() == p.children@.len(),
            forall|j: int| 0 <= j < p.children@.len() ==> #[trigger] p@.children[j] == p.children@[j]@,
            forall|j: int| 0 <= j < k ==> !child_hit(#[trigger] p@.children[j], own_pid, want_basename@),
        decreases p.children@.len() - k,
    {
        let c = &p.children[k];
        if c.pid == 0 || c.pid == own_pid || is_zombie(c) {
            k += 1;
            continue;
        }
        if exe_names(c, want_basename) || cmdline_names(c, want_basename) {
            proof {
                assert(child_hit(p@.children[k as int], own_pid, want_basename@));
            }
            return true;
        }
        k += 1;
    }
    false
}


// ── Command-line arguments ──────────────────────────────────────────────

/// The non-empty arguments of a command-line buffer, each as bytes.
pub fn split_cmdline(data: &[u8]) -> (r: Vec<Vec<u8>>)
    ensures
        r@.len() == cmd_args(data@).len(),
        forall|k: int| 0 <= k < r@.len() ==> #[trigger] r@[k]@ == cmd_args(data@)[k],
{
    let mut out: Vec<Vec<u8>> = Vec::new();
    let mut cur: Vec<u8> = Vec::new();
    let mut i: usize = 0;
    while i < data.len()
        invariant
            i <= data@.len(),
            split_nul(data@.take(i as int)).1 == cur@,
            out@.len() == split_nul(data@.take(i as int)).0.len(),
            forall|k: int| 0 <= k < out@.len() ==> #[trigger] out@[k]@ == split_nul(data@.take(i as int)).0[k],
        decreases data@.len() - i,
    {
        proof {
            assert(data@.take(i + 1).drop_last() =~= data@.take(i as int));
            assert(data@.take(i + 1).last() == data@[i as int]);
        }
        let b = data[i];
        if b == 0 {
            if cur.len() > 0 {
                out.push(cur);
            }
            cur = Vec::new();
        } else {
            cur.push(b);
        }
        i += 1;
    }
    proof {
        assert(data@.take(data@.len() as int) =~= data@);
    }
    if cur.len() > 0 {
        out.push(cur);
    }
    out
}

/// An argument whose basename ends in `.exe` and names the game, contains
/// the game's name, or is contained in it.
pub open spec fn loose_exe_arg_hit(arg: Seq<u8>, want: Seq<char>) -> bool {
    let b = basename_spec(utf8_lossy(arg));
    &&& b.len() > 0
    &&& ends_with_spec(ascii_lower_seq(b), ".exe"@)
    &&& (b == want || crate::text::contains_spec(b, want) || crate::text::contains_spec(want, b))
}

fn str_contains(s: &str, needle: &str) -> (r: bool)
    ensures
        r == crate::text::contains_spec(s@, needle@),
{
    let a = chars_of(s);
    let b = chars_of(needle);
    crate::text::contains(a.as_slice(), b.as_slice())
}

/// Whether any argument of a command-line buffer is an `.exe` whose
/// basename names the game loosely (equal, or one containing the other).
/// Wine/Proton sometimes carries the game's path in an early argument.
pub fn cmdline_any_exe_arg_matches(data: &[u8], want: &str) -> (r: bool)
    ensures
        r == exists|k: int| 0 <= k < cmd_args(data@).len() && loose_exe_arg_hit(#[trigger] cmd_args(data@)[k], want@),
{
    let args = split_cmdline(data);
    let suffix = chars_of(".exe");
    let mut k: usize = 0;
    while k < args.len()
        invariant
            k <= args@.len(),
            args@.len() == cmd_args(data@).len(),
            forall|j: int| 0 <= j < args@.len() ==> #[trigger] args@[j]@ == cmd_args(data@)[j],
            suffix@ == ".exe"@,
            forall|j: int| 0 <= j < k ==> !loose_exe_arg_hit(#[trigger] cmd_args(data@)[j], want@),
        decreases args@.len() - k,
    {
        let s = lossy_text(args[k].as_slice());
        let b = path_basename_ci(s.as_str());
        if !b.as_str().is_empty() {
            let lowered = to_ascii_lowercase(b.as_str());
            let lc = chars_of(lowered.as_str());
            if crate::text::ends_with(lc.as_slice(), suffix.as_slice()) {
                if str_eq(b.as_str(), want) || str_contains(b.as_str(), want) || str_contains(want, b.as_str()) {
                    proof {
                        assert(loose_exe_arg_hit(cmd_args(data@)[k as int], want@));
                    }
                    return true;
                }
            }
        }
        k += 1;
    }
    false
}

/// The first argument whose basename is `want`, as text.
pub open spec fn arg_named(args: Seq<Seq<u8>>, want: Seq<char>) -> Option<Seq<char>>
    decreases args.len(),
{
    if args.len() == 0 {
        None
    } else if basename_spec(utf8_lossy(args[0])) == want {
        Some(utf8_lossy(args[0]))
    } else {
        arg_named(args.drop_first(), want)
    }
}

/// The argument of a command-line buffer whose basename is `want`, as it
/// was written (so a Windows path comes back whole).
pub fn cmdline_arg_for(data: &[u8], want: &str) -> (r: Option<String>)
    ensures
        match r {
            Some(s) => arg_named(cmd_args(data@), want@) == Some(s@),
            None => arg_named(cmd_args(data@), want@) is None,
        },
{
    let args = split_cmdline(data);
    let ghost all = cmd_args(data@);
    proof {
        assert(all.skip(0) =~= all);
    }
    let mut k: usize = 0;
    while k < args.len()
        invariant
            k <= args@.len(),
            args@.len() == all.len(),
            all == cmd_args(data@),
            forall|j: int| 0 <= j < args@.len() ==> #[trigger] args@[j]@ == all[j],
            arg_named(all, want@) == arg_named(all.skip(k as int), want@),
        decreases args@.len() - k,
    {
        proof {
            assert(all.skip(k as int).drop_first() =~= all.skip(k + 1));
            assert(all.skip(k as int)[0] == all[k as int]);
        }
        let s = lossy_text(args[k].as_slice());
        let b = path_basename_ci(s.as_str());
        if str_eq(b.as_str(), want) {
            return Some(s);
        }
        k += 1;
    }
    proof {
        assert(all.skip(k as int).len() == 0);
    }
    None
}

// ── Deciding whether the focused window is the game ────────────────────

/// The basename to look for: that of the active game's path, when a game
/// is active, it has a path, and the path has a basename.
pub open spec fn wanted_basename_spec(active: Seq<char>, game_path: Option<Seq<char>>) -> Option<Seq<char>> {
    if active.len() == 0 {
        None
    } else {
        match game_path {
            Some(p) => if p.len() == 0 || basename_spec(p).len() == 0 {
                None
            } else {
                Some(basename_spec(p))
            },
            None => None,
        }
    }
}

pub fn wanted_basename(active: &str, game_path: Option<&str>) -> (r: Option<String>)
    ensures
        match r {
            Some(w) => wanted_basename_spec(active@, match game_path { Some(p) => Some(p@), None => None }) == Some(w@),
            None => wanted_basename_spec(active@, match game_path { Some(p) => Some(p@), None => None }) is None,
        },
{
    if active.is_empty() {
        return None;
    }
    match game_path {
        Some(p) => {
            if p.is_empty() {
                return None;
            }
            let w = path_basename_ci(p);
            if w.as_str().is_empty() {
                None
            } else {
                Some(w)
            }
        },
        None => None,
    }
}

/// The compositor's title and app id name the game: the title mentions the
/// active game's name, or the app id mentions the wanted basename (ASCII
/// case-insensitively). Nothing else in a title or app id counts.
pub open spec fn niri_names_game(
    title: Option<Seq<char>>,
    app_id: Option<Seq<char>>,
    active: Seq<char>,
    want: Seq<char>,
) -> bool {
    let t = match title {
        Some(x) => ascii_lower_seq(x),
        None => Seq::empty(),
    };
    let a = match app_id {
        Some(x) => ascii_lower_seq(x),
        None => Seq::empty(),
    };
    let act = ascii_lower_seq(active);
    let title_hit = act.len() > 0 && crate::text::contains_spec(t, act);
    let app_hit = crate::text::contains_spec(a, ascii_lower_seq(want));
    title_hit || app_hit
}

/// Whether the focused window's title or app id, as the compositor
/// reports them, name the game.
pub fn niri_identity_matches(title: Option<&str>, app_id: Option<&str>, active: &str, want: &str) -> (r: bool)
    ensures
        r == niri_names_game(
            match title { Some(x) => Some(x@), None => None },
            match app_id { Some(x) => Some(x@), None => None },
            active@,
            want@,
        ),
{
    let t = match title {
        Some(x) => to_ascii_lowercase(x),
        None => String::new(),
    };
    let a = match app_id {
        Some(x) => to_ascii_lowercase(x),
        None => String::new(),
    };
    let act = to_ascii_lowercase(active);
    let w = to_ascii_lowercase(want);
    let title_hit = !act.as_str().is_empty() && str_contains(t.as_str(), act.as_str());
    let app_hit = str_contains(a.as_str(), w.as_str());
    title_hit || app_hit
}


/// Focus can be checked at all: a game with a wanted basename is
/// configured, and the focused pid is known (not 0) and not the tool's own.
pub open spec fn focus_checkable(has_want: bool, focused_pid: u32, own_pid: u32) -> bool {
    has_want && focused_pid != 0 && focused_pid != own_pid
}

/// Whether focus may be checked; the check fails closed otherwise.
pub fn focus_candidate(has_want: bool, focused_pid: u32, own_pid: u32) -> (r: bool)
    ensures
        r == focus_checkable(has_want, focused_pid, own_pid),
{
    has_want && focused_pid != 0 && focused_pid != own_pid
}

/// The focused window is the game's: focus can be checked and one of the
/// four checks, in order, found the game: the focused process's exe, a
/// descendant's, a `.exe` argument of its command line, or the title or app
/// id the compositor reports.
pub open spec fn focus_is_game(
    has_want: bool,
    focused_pid: u32,
    own_pid: u32,
    exe_hit: bool,
    walk_hit: bool,
    cmdline_hit: bool,
    niri_hit: bool,
) -> bool {
    focus_checkable(has_want, focused_pid, own_pid) && (exe_hit || walk_hit || cmdline_hit || niri_hit)
}

/// The focus decision from what was read. A later check need not be made
/// once an earlier one hit: pass `false` for it, which leaves the result.
pub fn focus_decision(
    has_want: bool,
    focused_pid: u32,
    own_pid: u32,
    exe_hit: bool,
    walk_hit: bool,
    cmdline_hit: bool,
    niri_hit: bool,
) -> (r: bool)
    ensures
        r == focus_is_game(has_want, focused_pid, own_pid, exe_hit, walk_hit, cmdline_hit, niri_hit),
{
    if !focus_candidate(has_want, focused_pid, own_pid) {
        return false;
    }
    exe_hit || walk_hit || cmdline_hit || niri_hit
}

// ── Walking a process's descendants ────────────────────────────────────

/// The search through a focused process's descendants, a few generations
/// deep, that looks for the game among them. Reading `/proc` is the
/// caller's part: it asks for the next process whose children to read,
/// offers each child it read, and checks a child the walk admits.
pub struct DescendantWalk {
    root: u32,
    own: u32,
    max_depth: u32,
    frontier: Vec<(u32, u32)>,
    visited: Vec<u32>,
}

pub struct WalkV {
    pub root: u32,
    pub own: u32,
    pub max_depth: u32,
    pub frontier: Seq<(u32, u32)>,
    pub visited: Seq<u32>,
}

impl View for DescendantWalk {
    type V = WalkV;

    closed spec fn view(&self) -> WalkV {
        WalkV {
            root: self.root,
            own: self.own,
            max_depth: self.max_depth,
            frontier: self.frontier@,
            visited: self.visited@,
        }
    }
}

/// Popping the frontier until an entry shallower than `max` turns up: that
/// entry (if any) and what is left.
pub open spec fn pop_shallow(frontier: Seq<(u32, u32)>, max: u32) -> (Option<(u32, u32)>, Seq<(u32, u32)>)
    decreases frontier.len(),
{
    if frontier.len() == 0 {
        (None, frontier)
    } else if frontier.last().1 >= max {
        pop_shallow(frontier.drop_last(), max)
    } else {
        (Some(frontier.last()), frontier.drop_last())
    }
}

impl DescendantWalk {
    /// A walk from `root`, which counts as seen, at most `max_depth`
    /// generations down; `own` is this program's pid, never admitted.
    pub fn new(root: u32, own: u32, max_depth: u32) -> (r: DescendantWalk)
        ensures
            r@ == (WalkV { root, own, max_depth, frontier: seq![(root, 0u32)], visited: seq![root] }),
    {
        let mut frontier: Vec<(u32, u32)> = Vec::new();
        frontier.push((root, 0));
        let mut visited: Vec<u32> = Vec::new();
        visited.push(root);
        DescendantWalk { root, own, max_depth, frontier, visited }
    }

    /// The next process whose children to read, with its depth: the most
    /// recently queued one that is less than `max_depth` deep (deeper
    /// ones are dropped on the way). `None` ends the walk.
    pub fn next_parent(&mut self) -> (r: Option<(u32, u32)>)
        ensures
            r == pop_shallow(old(self)@.frontier, old(self)@.max_depth).0,
            final(self)@ == (WalkV { frontier: pop_shallow(old(self)@.frontier, old(self)@.max_depth).1, ..old(self)@ }),
            r matches Some(e) ==> e.1 < old(self)@.max_depth,
    {
        loop
            invariant
                self@.root == old(self)@.root,
                self@.own == old(self)@.own,
                self@.max_depth == old(self)@.max_depth,
                self@.visited == old(self)@.visited,
                pop_shallow(self@.frontier, self@.max_depth) == pop_shallow(old(self)@.frontier, old(self)@.max_depth),
            decreases self@.frontier.len(),
        {
            match self.frontier.pop() {
                None => {
                    return None;
                },
                Some(e) => {
                    if e.1 < self.max_depth {
                        return Some(e);
                    }
                },
            }
        }
    }

    /// Offer a child of a process of depth `parent_depth` (as
    /// `next_parent` gave it). A child is admitted unless it is pid 0, this
    /// program, the root, a zombie, or already seen; an admitted child is
    /// marked seen and queued one generation deeper, and the caller then
    /// checks whether it runs the game.
    pub fn admit_child(&mut self, child: u32, parent_depth: u32, zombie: bool) -> (r: bool)
        requires
            parent_depth < old(self)@.max_depth,
        ensures
            r == !(child == 0 || child == old(self)@.own || child == old(self)@.root || zombie
                || old(self)@.visited.contains(child)),
            r ==> final(self)@ == (WalkV {
                frontier: old(self)@.frontier.push((child, (parent_depth + 1) as u32)),
                visited: old(self)@.visited.push(child),
                ..old(self)@
            }),
            !r ==> final(self)@ == old(self)@,
    {
        if child == 0 || child == self.own || child == self.root || zombie {
            return false;
        }
        let mut i: usize = 0;
        while i < self.visited.len()
            invariant
                i <= self.visited@.len(),
                forall|j: int| 0 <= j < i ==> self.visited@[j] != child,
            decreases self.visited@.len() - i,
        {
            if self.visited[i] == child {
                proof {
                    assert(self.visited@[i as int] == child);
                }
                return false;
            }
            i += 1;
        }
        self.visited.push(child);
        self.frontier.push((child, parent_depth + 1));
        true
    }
}

// ── Finding the running game ───────────────────────────────────────────

/// A `/proc` directory entry names a process: it is a non-empty run of
/// decimal digits that fits a `u32`.
pub open spec fn proc_entry_pid_spec(name: Seq<char>) -> Option<u32> {
    if name.len() > 0 && crate::text::all_digits(name) {
        parse_u32_spec(name)
    } else {
        None
    }
}

pub fn proc_entry_pid(name: &str) -> (r: Option<u32>)
    ensures
        r == proc_entry_pid_spec(name@),
{
    let cs = chars_of(name);
    if cs.len() == 0 {
        return None;
    }
    let mut i: usize = 0;
    while i < cs.len()
        invariant
            i <= cs@.len(),
            cs@ == name@,
            forall|j: int| 0 <= j < i ==> crate::text::is_digit(#[trigger] cs@[j]),
        decreases cs@.len() - i,
    {
        if !(cs[i] >= '0' && cs[i] <= '9') {
            proof {
                assert(!crate::text::is_digit(cs@[i as int]));
            }
            return None;
        }
        i += 1;
    }
    parse_u32_chars(cs.as_slice())
}

/// The `exe` link's target, when its basename is `want`.
pub open spec fn exe_target_hit(p: ProcV, want: Seq<char>) -> Option<Seq<char>> {
    match p.exe {
        Some(t) => if basename_spec(t) == want {
            Some(t)
        } else {
            None
        },
        None => None,
    }
}

/// When the command line's last `.exe` argument names the game, the
/// argument naming it, as written.
pub open spec fn cmdline_target_hit(p: ProcV, want: Seq<char>) -> Option<Seq<char>> {
    match p.cmdline {
        Some(d) => match last_exe_basename(d) {
            Some(g) => if g.len() > 0 && g == want {
                arg_named(cmd_args(d), want)
            } else {
                None
            },
            None => None,
        },
        None => None,
    }
}

pub open spec fn skipped(p: ProcV, own: u32) -> bool {
    p.pid == 0 || p.pid == own || is_zombie_spec(p)
}

/// The game's path as this process shows it: by its `exe` link, else by
/// its command line.
pub open spec fn self_target(p: ProcV, want: Seq<char>) -> Option<Seq<char>> {
    match exe_target_hit(p, want) {
        Some(t) => Some(t),
        None => cmdline_target_hit(p, want),
    }
}

/// The first child (not skipped) that shows the game's path.
pub open spec fn child_target(cs: Seq<ProcV>, own: u32, want: Seq<char>) -> Option<Seq<char>>
    decreases cs.len(),
{
    if cs.len() == 0 {
        None
    } else if !skipped(cs[0], own) && self_target(cs[0], want) is Some {
        self_target(cs[0], want)
    } else {
        child_target(cs.drop_first(), own, want)
    }
}

/// The game's path as a process (or, failing that, one of its children)
/// shows it.
pub open spec fn proc_target(p: ProcV, own: u32, want: Seq<char>) -> Option<Seq<char>> {
    if skipped(p, own) {
        None
    } else {
        match self_target(p, want) {
            Some(t) => Some(t),
            None => child_target(p.children, own, want),
        }
    }
}

/// The first process in `/proc` order that shows the game's path.
pub open spec fn first_target(ps: Seq<ProcV>, own: u32, want: Seq<char>) -> Option<Seq<char>>
    decreases ps.len(),
{
    if ps.len() == 0 {
        None
    } else if proc_target(ps[0], own, want) is Some {
        proc_target(ps[0], own, want)
    } else {
        first_target(ps.drop_first(), own, want)
    }
}

fn self_target_exec(p: &ProcSnapshot, want: &str) -> (r: Option<String>)
    ensures
        match r {
            Some(t) => self_target(p@, want@) == Some(t@),
            None => self_target(p@, want@) is None,
        },
{
    match &p.exe {
        Some(t) => {
            let got = path_basename_ci(t.as_str());
            if str_eq(got.as_str(), want) {
                return Some(owned(t.as_str()));
            }
        },
        None => {},
    }
    match &p.cmdline {
        Some(d) => match parse_cmdline_last_exe_basename(d.as_slice()) {
            Some(g) => {
                if !g.as_str().is_empty() && str_eq(g.as_str(), want) {
                    cmdline_arg_for(d.as_slice(), want)
                } else {
                    None
                }
            },
            None => None,
        },
        None => None,
    }
}

fn proc_target_exec(p: &ProcSnapshot, own: u32, want: &str) -> (r: Option<String>)
    ensures
        match r {
            Some(t) => proc_target(p@, own, want@) == Some(t@),
            None => proc_target(p@, own, want@) is None,
        },
{
    if p.pid == 0 || p.pid == own || is_zombie(p) {
        return None;
    }
    match self_target_exec(p, want) {
        Some(t) => {
            return Some(t);
        },
        None => {},
    }
    let ghost cs = p@.children;
    proof {
        assert(cs.skip(0) =~= cs);
    }
    let mut k: usize = 0;
    while k < p.children.len()
        invariant
            k <= p.children@.len(),
            cs == p@.children,
            cs.len() == p.children@.len(),
            forall|j: int| 0 <= j < p.children@.len() ==> #[trigger] cs[j] == p.children@[j]@,
            proc_target(p@, own, want@) == child_target(cs.skip(k as int), own, want@),
        decreases p.children@.len() - k,
    {
        proof {
            assert(cs.skip(k as int).drop_first() =~= cs.skip(k + 1));
            assert(cs.skip(k as int)[0] == cs[k as int]);
        }
        let c = &p.children[k];
        if !(c.pid == 0 || c.pid == own || is_zombie(c)) {
            match self_target_exec(c, want) {
                Some(t) => {
                    return Some(t);
                },
                None => {},
            }
        }
        k += 1;
    }
    proof {
        assert(cs.skip(k as int).len() == 0);
    }
    None
}

/// The path of a running game executable among the processes read from
/// `/proc`, in order: the first live process (not pid 0, this program or
/// a zombie) whose `exe` link has the wanted basename (its target), or
/// whose command line's last `.exe` argument does (that argument as
/// written), or one of whose children does.
pub fn live_game_exe(procs: &[ProcSnapshot], own_pid: u32, want_basename: &str) -> (r: Option<String>)
    ensures
        match r {
            Some(t) => first_target(procs@.map_values(|p: ProcSnapshot| p@), own_pid, want_basename@) == Some(t@),
            None => first_target(procs@.map_values(|p: ProcSnapshot| p@), own_pid, want_basename@) is None,
        },
{
    let ghost ps = procs@.map_values(|p: ProcSnapshot| p@);
    proof {
        assert(ps.skip(0) =~= ps);
    }
    let mut k: usize = 0;
    while k < procs.len()
        invariant
            k <= procs@.len(),
            ps == procs@.map_values(|p: ProcSnapshot| p@),
            first_target(ps, own_pid, want_basename@) == first_target(ps.skip(k as int), own_pid, want_basename@),
        decreases procs@.len() - k,
    {
        proof {
            assert(ps.skip(k as int).drop_first() =~= ps.skip(k + 1));
            assert(ps.skip(k as int)[0] == ps[k as int]);
        }
        match proc_target_exec(&procs[k], own_pid, want_basename) {
            Some(t) => {
                return Some(t);
            },
            None => {},
        }
        k += 1;
    }
    proof {
        assert(ps.skip(k as int).len() == 0);
    }
    None
}


// ── Choosing the input devices to read ──────────────────────────────────

/// A device name that marks an injected (uinput) device: this program's
/// own, or any whose name mentions "virtual" or "uinput" in any case.
pub open spec fn virtual_name_spec(name: Seq<char>) -> bool {
    crate::text::contains_spec(name, "Macrotool"@) || crate::text::contains_spec(lowercase(name), "virtual"@)
        || crate::text::contains_spec(lowercase(name), "uinput"@)
}

pub fn name_looks_virtual(name: &str) -> (r: bool)
    ensures
        r == virtual_name_spec(name@),
{
    let l = to_lowercase(name);
    str_contains(name, "Macrotool") || str_contains(l.as_str(), "virtual") || str_contains(l.as_str(), "uinput")
}

/// The `/sys/class/input` link of a device created through uinput points
/// under `/devices/virtual/`.
pub fn sysfs_link_is_virtual(link: &str) -> (r: bool)
    ensures
        r == crate::text::contains_spec(link@, "/devices/virtual/"@),
{
    str_contains(link, "/devices/virtual/")
}

/// An entry of `/dev/input` that is an event device node.
pub fn is_event_node(file_name: &str) -> (r: bool)
    ensures
        r == crate::text::starts_with_spec(file_name@, "event"@),
{
    let a = chars_of(file_name);
    let b = chars_of("event");
    crate::text::starts_with(a.as_slice(), b.as_slice())
}

/// What a device rescan does with one device it opened.
#[derive(Clone, Copy, Debug, PartialEq, Eq, Structural)]
pub enum DevicePlan {
    /// Neither keyboard nor mouse, or already read by a live reader.
    Skip,
    /// A new device: start a reader (the flag: it is the primary keyboard).
    Spawn(bool),
    /// The node now holds a different physical device: stop the old
    /// reader, then start a new one.
    ReplaceReader(bool),
}

/// One rescan of the input devices: whether a primary keyboard was found.
pub struct DeviceScan {
    pub primary_seen: bool,
}

impl DeviceScan {
    pub fn new() -> (r: DeviceScan)
        ensures
            !r.primary_seen,
    {
        DeviceScan { primary_seen: false }
    }

    /// Decide about one device. The first keyboard that gets a reader in a
    /// scan is the primary one; a node that has a reader keeps it unless the
    /// device's identity changed.
    pub fn plan(
        &mut self,
        ids: &DeviceIdentities,
        path: &str,
        uniq: &str,
        phys: &str,
        name: &str,
        is_keyboard: bool,
        is_mouse: bool,
        has_reader: bool,
    ) -> (r: DevicePlan)
        ensures
            !is_keyboard && !is_mouse ==> r == DevicePlan::Skip && final(self).primary_seen == old(self).primary_seen,
            (is_keyboard || is_mouse) && has_reader && (match lookup(ids.map@, path@) {
                Some(id) => id.0 == uniq@ && id.1 == phys@ && id.2 == name@,
                None => true,
            }) ==> r == DevicePlan::Skip && final(self).primary_seen == old(self).primary_seen,
            r matches DevicePlan::Spawn(p) ==> !has_reader && p == (is_keyboard && !old(self).primary_seen),
            r matches DevicePlan::ReplaceReader(p) ==> has_reader && p == (is_keyboard && !old(self).primary_seen),
            r != DevicePlan::Skip ==> (is_keyboard || is_mouse) && final(self).primary_seen == (old(self).primary_seen
                || is_keyboard),
            (is_keyboard || is_mouse) && !has_reader ==> r is Spawn,
            (is_keyboard || is_mouse) && has_reader && !(match lookup(ids.map@, path@) {
                Some(id) => id.0 == uniq@ && id.1 == phys@ && id.2 == name@,
                None => true,
            }) ==> r is ReplaceReader,
    {
        if !is_keyboard && !is_mouse {
            return DevicePlan::Skip;
        }
        let replace = if has_reader {
            if same_identity(ids, path, uniq, phys, name) {
                return DevicePlan::Skip;
            }
            true
        } else {
            false
        };
        let primary = is_keyboard && !self.primary_seen;
        if primary {
            self.primary_seen = true;
        }
        if replace {
            DevicePlan::ReplaceReader(primary)
        } else {
            DevicePlan::Spawn(primary)
        }
    }
}

} // verus!
