//! Starting the manager: which backend, which commands, and the small protocols
//! with the processes around it.

use vstd::prelude::*;

use crate::text::concat2;
use crate::text::concat3;
use crate::text::decimal_string;
use crate::text::split_whitespace;
use crate::wire::lowest_first;
use crate::wire::read_i32;

verus! {

/// What draws and takes input.
#[derive(Clone, Copy, Debug, PartialEq, Eq, Structural)]
pub enum BackendKind {
    Winit,
    Tty,
}

/// The backend to start: the one that is asked for, else a window where there is
/// a session around, and the terminal where there is none.
pub fn choose_backend(asked: Option<BackendKind>, wayland: bool, x11: bool) -> (r: BackendKind)
    ensures
        r == (match asked {
            Some(b) => b,
            None => if wayland || x11 {
                BackendKind::Winit
            } else {
                BackendKind::Tty
            },
        }),
{
    match asked {
        Some(b) => b,
        None => if wayland || x11 {
            BackendKind::Winit
        } else {
            BackendKind::Tty
        },
    }
}

/// Whether the session around is told of the manager: only where it is the
/// session itself.
pub fn session_integration(backend: BackendKind) -> (r: bool)
    ensures
        r == (backend == BackendKind::Tty),
{
    match backend {
        BackendKind::Tty => true,
        BackendKind::Winit => false,
    }
}

/// A program and its arguments.
#[derive(Debug)]
pub struct CommandLine {
    pub program: String,
    pub args: Vec<String>,
}

/// The program of a command and its arguments: its words. Without words there is
/// nothing to start.
pub fn spawn_client(command: &str) -> (r: Option<CommandLine>)
    ensures
        match r {
            Some(c) => {
                let w = crate::text::words(command@);
                &&& w.len() > 0
                &&& c.program@ == w[0]
                &&& crate::text::views(c.args@) == w.skip(1)
            },
            None => crate::text::words(command@).len() == 0,
        },
{
    let parts = split_whitespace(command);
    let ghost w = crate::text::words(command@);
    assert(crate::text::views(parts@).len() == parts@.len());
    if parts.len() == 0 {
        return None;
    }
    let mut rest = parts;
    let program = rest.remove(0);
    assert(program@ == crate::text::views(parts@)[0]);
    assert(crate::text::views(rest@) =~= w.skip(1));
    Some(CommandLine { program, args: rest })
}

/// The terminal that is started where no client is asked for.
pub const TERMINAL: &'static str = "weston-terminal";

/// The client to start once the compositor is up: the one that is asked for, else
/// the terminal, where it is available.
pub fn first_client(asked: Option<String>, available: bool) -> (r: Option<String>)
    ensures
        match (asked, r) {
            (Some(a), Some(c)) => c == a,
            (None, Some(c)) => available && c@ == TERMINAL@,
            (None, None) => !available,
            (Some(_), None) => false,
        },
{
    match asked {
        Some(a) => Some(a),
        None => if available {
            Some(TERMINAL.to_string())
        } else {
            None
        },
    }
}

/// What a child process that has ended leaves behind: its number and its raw
/// status.
#[derive(Clone, Copy, Debug, PartialEq, Eq, Structural)]
pub struct Reaped {
    pub pid: i32,
    pub status: i32,
}

/// The record at the place `i` of some bytes, eight bytes each.
pub open spec fn record_at(bytes: Seq<u8>, i: int, little: bool) -> Reaped {
    Reaped {
        pid: crate::wire::i32_of(bytes.skip(8 * i), little) as i32,
        status: crate::wire::i32_of(bytes.skip(8 * i + 4), little) as i32,
    }
}

/// Whether records are the whole ones at the front of some bytes, in some byte
/// order.
pub open spec fn are_records(bytes: Seq<u8>, records: Seq<Reaped>) -> bool {
    exists|little: bool| #[trigger] records_in(bytes, records, little)
}

/// Whether records are the whole ones at the front of some bytes.
pub open spec fn records_in(bytes: Seq<u8>, records: Seq<Reaped>, little: bool) -> bool {
    &&& records.len() == bytes.len() / 8
    &&& forall|i: int|
        0 <= i < records.len() ==> #[trigger] records[i] == record_at(bytes, i, little)
}

/// Takes the whole records off the front of what was read, in the byte order of
/// the machine. What does not make a whole record stays.
pub fn drain_records(leftover: &mut Vec<u8>) -> (r: Vec<Reaped>)
    ensures
        are_records(old(leftover)@, r@),
        final(leftover)@ == old(leftover)@.skip(8 * r@.len() as int),
{
    let little = lowest_first();
    let r = drain_records_in(leftover, little);
    assert(records_in(old(leftover)@, r@, little));
    r
}

/// Takes the whole records off the front of what was read, in the given byte
/// order. What does not make a whole record stays.
pub fn drain_records_in(leftover: &mut Vec<u8>, little: bool) -> (r: Vec<Reaped>)
    ensures
        records_in(old(leftover)@, r@, little),
        final(leftover)@ == old(leftover)@.skip(8 * r@.len() as int),
{
    let ghost all = leftover@;
    let mut r: Vec<Reaped> = Vec::new();
    assert(leftover@ =~= all.skip(0));
    while leftover.len() >= 8
        invariant
            8 * r@.len() <= all.len(),
            leftover@ == all.skip(8 * r@.len() as int),
            forall|i: int|
                0 <= i < r@.len() ==> #[trigger] r@[i] == record_at(all, i, little),
        decreases leftover@.len(),
    {
        let ghost n = r@.len() as int;
        let pid = read_i32(leftover, 0, little);
        let status = read_i32(leftover, 4, little);
        let tail = leftover.split_off(8);
        *leftover = tail;
        proof {
            assert(all.skip(8 * n).skip(0) =~= all.skip(8 * n));
            assert(all.skip(8 * n).skip(4) =~= all.skip(8 * n + 4));
            assert(leftover@ =~= all.skip(8 * (n + 1)));
        }
        r.push(Reaped { pid, status });
    }
    assert(records_in(all, r@, little));
    r
}

/// The name of the socket that hears when the manager is ready, as the bytes of
/// an address. One that begins with `@` has no file: its first byte is zero.
/// Others end with a zero. A name that is empty or too long is none.
pub fn notify_address(path: &Vec<u8>, capacity: usize) -> (r: Option<Vec<u8>>)
    ensures
        match r {
            Some(a) => {
                &&& 0 < path@.len() < capacity
                &&& a@ == notify_bytes(path@)
            },
            None => path@.len() == 0 || path@.len() >= capacity,
        },
{
    if path.len() == 0 || path.len() >= capacity {
        return None;
    }
    let mut a: Vec<u8> = Vec::new();
    let at_sign: u8 = 64;
    let abstract_name = path[0] == at_sign;
    let mut i: usize = 0;
    if abstract_name {
        a.push(0);
        i = 1;
    }
    let ghost start = i as int;
    let ghost front = a@;
    while i < path.len()
        invariant
            start <= i <= path@.len(),
            0 <= start,
            a@ == front + path@.subrange(start, i as int),
        decreases path@.len() - i,
    {
        a.push(path[i]);
        i += 1;
        assert(a@ =~= front + path@.subrange(start, i as int));
    }
    if abstract_name {
        assert(a@ =~= notify_bytes(path@));
    } else {
        a.push(0);
        assert(a@ =~= notify_bytes(path@));
    }
    Some(a)
}

/// The bytes of an address for a socket's name.
pub open spec fn notify_bytes(path: Seq<u8>) -> Seq<u8> {
    if path[0] == 64 {
        seq![0u8] + path.skip(1)
    } else {
        path.push(0)
    }
}

/// An address always fits the room that its name was checked against.
pub proof fn law_address_fits(path: Seq<u8>, capacity: int)
    requires
        0 < path.len() < capacity,
    ensures
        notify_bytes(path).len() <= capacity,
{
}

/// The file that the configuration is in: the one that is asked for, else the
/// usual one.
pub fn config_target(asked: Option<String>, usual: Option<String>) -> (r: Result<String, String>)
    ensures
        match (asked, usual) {
            (Some(a), _) => r == Ok::<String, String>(a),
            (None, Some(u)) => r == Ok::<String, String>(u),
            (None, None) => r matches Err(e) && e@
                == "no config path: pass --config or set $HOME/$XDG_CONFIG_HOME"@,
        },
{
    match asked {
        Some(a) => Ok(a),
        None => match usual {
            Some(u) => Ok(u),
            None => Err(
                "no config path: pass --config or set $HOME/$XDG_CONFIG_HOME".to_string(),
            ),
        },
    }
}

/// Whether the usual configuration may be written to a file: a file that is there
/// is kept unless the user insists.
pub fn may_write_default(target: &str, there: bool, force: bool) -> (r: Result<(), String>)
    ensures
        match r {
            Ok(_) => !there || force,
            Err(e) => there && !force && e@ == target@
                + " already exists; pass --force to overwrite"@,
        },
{
    if there && !force {
        return Err(concat2(target, " already exists; pass --force to overwrite"));
    }
    Ok(())
}

/// What a check of the configuration says of a file that is there and could be
/// read.
pub open spec fn check_summary_text(target: Seq<char>, bindings: nat, warnings: nat) -> Seq<char> {
    target + ": OK — "@ + crate::text::decimal(bindings) + " binding(s), "@ + crate::text::decimal(
        warnings,
    ) + " warning(s)"@
}

/// What a check of the configuration says: one line where the file could be
/// read, however many warnings there are. A file that is not there is an error.
pub fn check_config(
    target: &str,
    there: bool,
    loaded: Result<usize, String>,
    warnings: u64,
) -> (r: Result<String, String>)
    ensures
        match r {
            Ok(line) => there && (loaded matches Ok(n) && line@ == check_summary_text(
                target@,
                n as nat,
                warnings as nat,
            )),
            Err(e) => if !there {
                e@ == target@ + " does not exist"@
            } else {
                loaded matches Err(why) && e@ == target@ + ": "@ + why@
            },
        },
{
    if !there {
        return Err(concat2(target, " does not exist"));
    }
    match loaded {
        Err(why) => Err(concat3(target, ": ", why.as_str())),
        Ok(n) => {
            let bindings = decimal_string(n as u64);
            let count = decimal_string(warnings);
            let front = concat3(target, ": OK — ", bindings.as_str());
            let middle = concat3(front.as_str(), " binding(s), ", count.as_str());
            Ok(concat2(middle.as_str(), " warning(s)"))
        },
    }
}

/// The records of ended children stand behind each other, eight bytes each: the
/// process number in the first four and its status in the others. There are as many as
/// are whole.
pub proof fn law_records_in_order(bytes: Seq<u8>, records: Seq<Reaped>, little: bool, i: int)
    requires
        records_in(bytes, records, little),
        0 <= i < records.len(),
    ensures
        8 * records.len() <= bytes.len() < 8 * records.len() + 8,
        records[i].pid == crate::wire::i32_of(bytes.subrange(8 * i, 8 * i + 4), little),
        records[i].status == crate::wire::i32_of(bytes.subrange(8 * i + 4, 8 * i + 8), little),
{
    assert(records[i] == record_at(bytes, i, little));
    let a = bytes.skip(8 * i);
    let b = bytes.subrange(8 * i, 8 * i + 4);
    assert(a[0] == b[0] && a[1] == b[1] && a[2] == b[2] && a[3] == b[3]);
    let c = bytes.skip(8 * i + 4);
    let d = bytes.subrange(8 * i + 4, 8 * i + 8);
    assert(c[0] == d[0] && c[1] == d[1] && c[2] == d[2] && c[3] == d[3]);
}

/// A socket's name that begins with an at sign stands behind a zero in its place and
/// is as long as before; any other is kept and ends with a zero.
pub proof fn law_address_of_a_name(path: Seq<u8>, i: int)
    requires
        path.len() > 0,
    ensures
        path[0] == 64 ==> notify_bytes(path).len() == path.len() && notify_bytes(path)[0] == 0 && (0
            < i < path.len() ==> notify_bytes(path)[i] == path[i]),
        path[0] != 64 ==> notify_bytes(path).len() == path.len() + 1 && notify_bytes(path).last()
            == 0 && (0 <= i < path.len() ==> notify_bytes(path)[i] == path[i]),
{
}

} // verus!
