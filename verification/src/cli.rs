//! Command-line options of the MCP server and the framing of server-sent
//! events on its client transports.
use vstd::prelude::*;
use crate::policy::{parse_port, parse_u16};
use crate::text::{
    chars_of, eq_str, has_prefix, slice_chars, starts_with, string_of, to_lowercase, trim, trim_chars,
    unicode_lower, push_char,
};

verus! {

/// How the MCP server talks to its client.
#[derive(Debug, Clone, Copy, PartialEq, Eq, Structural)]
pub enum TransportType {
    /// Standard input and output (the default).
    Stdio,
    /// Server-sent events.
    Sse,
    /// Streamable HTTP.
    Http,
}

/// A transport name, matched without regard to case.
pub open spec fn transport_parse(s: Seq<char>) -> Result<TransportType, Seq<char>> {
    let l = unicode_lower(s);
    if l == "stdio"@ {
        Ok(TransportType::Stdio)
    } else if l == "sse"@ {
        Ok(TransportType::Sse)
    } else if l == "http"@ {
        Ok(TransportType::Http)
    } else {
        Err("Unknown transport type: "@ + s)
    }
}

impl TransportType {
    /// Parses a transport name (`stdio`, `sse` or `http`, in any case).
    pub fn from_str(s: &str) -> (r: Result<TransportType, String>)
        ensures
            match transport_parse(s@) {
                Ok(t) => r == Ok::<TransportType, String>(t),
                Err(m) => r matches Err(e) && e@ == m,
            },
    {
        let l = to_lowercase(s);
        if eq_str(&l, "stdio") {
            Ok(TransportType::Stdio)
        } else if eq_str(&l, "sse") {
            Ok(TransportType::Sse)
        } else if eq_str(&l, "http") {
            Ok(TransportType::Http)
        } else {
            let mut m = String::from_str("Unknown transport type: ");
            m.append(s);
            Err(m)
        }
    }
}

/// What the command line asks for.
pub enum CliOutcome {
    /// Serve over `transport`, on `port` where the transport listens.
    Run { transport: TransportType, port: u16 },
    /// Print the usage text and stop.
    Help,
    /// Stop with this error message.
    Fail(String),
}

/// The model of a [`CliOutcome`].
pub enum CliView {
    Run { transport: TransportType, port: u16 },
    Help,
    Fail(Seq<char>),
}

/// The model of a [`CliOutcome`].
pub open spec fn cli_view(o: CliOutcome) -> CliView {
    match o {
        CliOutcome::Run { transport, port } => CliView::Run { transport, port },
        CliOutcome::Help => CliView::Help,
        CliOutcome::Fail(m) => CliView::Fail(m@),
    }
}

/// The outcome of the arguments from index `i` on, with the transport and
/// port chosen so far. `--transport`/`-t` and `--port`/`-p` take the next
/// argument as their value; `--help`/`-h` stops at once; anything else is
/// skipped.
pub open spec fn args_outcome(a: Seq<Seq<char>>, i: int, t: TransportType, p: u16) -> CliView
    decreases a.len() - i,
{
    if i < 0 || i >= a.len() {
        CliView::Run { transport: t, port: p }
    } else if a[i] == "--transport"@ || a[i] == "-t"@ {
        if i + 1 >= a.len() {
            CliView::Fail("Error: --transport requires a value"@)
        } else {
            match transport_parse(a[i + 1]) {
                Ok(t2) => args_outcome(a, i + 2, t2, p),
                Err(m) => CliView::Fail("Error: "@ + m),
            }
        }
    } else if a[i] == "--port"@ || a[i] == "-p"@ {
        if i + 1 >= a.len() {
            CliView::Fail("Error: --port requires a value"@)
        } else {
            match parse_u16(a[i + 1]) {
                Some(p2) => args_outcome(a, i + 2, t, p2),
                None => CliView::Fail("Error: Invalid port number"@),
            }
        }
    } else if a[i] == "--help"@ || a[i] == "-h"@ {
        CliView::Help
    } else {
        args_outcome(a, i + 1, t, p)
    }
}

/// The models of a list of strings.
pub open spec fn args_view(v: Seq<String>) -> Seq<Seq<char>> {
    Seq::new(v.len(), |i: int| v[i]@)
}

/// Reads the command line (`args[0]` is the program): stdio on port 3000
/// unless the options say otherwise.
pub fn parse_args(args: &Vec<String>) -> (r: CliOutcome)
    ensures
        cli_view(r) == args_outcome(args_view(args@), 1, TransportType::Stdio, 3000),
{
    let ghost a = args_view(args@);
    let mut transport = TransportType::Stdio;
    let mut port: u16 = 3000;
    let mut i: usize = 1;
    while i < args.len()
        invariant
            a == args_view(args@),
            args_outcome(a, 1, TransportType::Stdio, 3000) == args_outcome(a, i as int, transport, port),
        decreases args.len() - i,
    {
        let arg = &args[i];
        assert(a[i as int] == arg@);
        if eq_str(arg, "--transport") || eq_str(arg, "-t") {
            if i + 1 >= args.len() {
                return CliOutcome::Fail(String::from_str("Error: --transport requires a value"));
            }
            assert(a[i + 1] == args@[i + 1]@);
            match TransportType::from_str(args[i + 1].as_str()) {
                Ok(t) => {
                    transport = t;
                },
                Err(e) => {
                    let mut m = String::from_str("Error: ");
                    m.append(e.as_str());
                    return CliOutcome::Fail(m);
                },
            }
            i = i + 2;
        } else if eq_str(arg, "--port") || eq_str(arg, "-p") {
            if i + 1 >= args.len() {
                return CliOutcome::Fail(String::from_str("Error: --port requires a value"));
            }
            assert(a[i + 1] == args@[i + 1]@);
            let v = chars_of(args[i + 1].as_str());
            match parse_port(&v) {
                Some(p) => {
                    port = p;
                },
                None => {
                    return CliOutcome::Fail(String::from_str("Error: Invalid port number"));
                },
            }
            i = i + 2;
        } else if eq_str(arg, "--help") || eq_str(arg, "-h") {
            return CliOutcome::Help;
        } else {
            i = i + 1;
        }
    }
    CliOutcome::Run { transport, port }
}

/// A line without the `\r` of a `\r\n` ending.
pub open spec fn strip_cr(l: Seq<char>) -> Seq<char> {
    if l.len() > 0 && l.last() == '\r' {
        l.drop_last()
    } else {
        l
    }
}

/// The lines of a text (`str::lines`), where `cur` is the part of the
/// current line already read: lines end at `\n` (a `\r` just before it is
/// dropped); a last line without `\n` counts where it is not empty.
pub open spec fn lines_from(s: Seq<char>, cur: Seq<char>) -> Seq<Seq<char>>
    decreases s.len(),
{
    if s.len() == 0 {
        if cur.len() == 0 {
            Seq::empty()
        } else {
            seq![cur]
        }
    } else if s[0] == '\n' {
        seq![strip_cr(cur)] + lines_from(s.drop_first(), Seq::empty())
    } else {
        lines_from(s.drop_first(), cur.push(s[0]))
    }
}

/// The payloads of the `data: ` lines among `lines`, each trimmed, in order.
pub open spec fn data_payloads(lines: Seq<Seq<char>>) -> Seq<Seq<char>>
    decreases lines.len(),
{
    if lines.len() == 0 {
        Seq::empty()
    } else {
        let rest = data_payloads(lines.drop_first());
        if has_prefix(lines[0], "data: "@) {
            seq![trim(lines[0].skip(6))] + rest
        } else {
            rest
        }
    }
}

/// Lines joined with `\n` between them.
pub open spec fn join_lines(ls: Seq<Seq<char>>) -> Seq<char>
    decreases ls.len(),
{
    if ls.len() == 0 {
        Seq::empty()
    } else if ls.len() == 1 {
        ls[0]
    } else {
        join_lines(ls.drop_last()) + seq!['\n'] + ls.last()
    }
}

/// The data of one server-sent event: its `data: ` lines' payloads joined
/// with `\n`; none where the block has no such line.
pub open spec fn sse_data(block: Seq<char>) -> Option<Seq<char>> {
    let d = data_payloads(lines_from(block, Seq::empty()));
    if d.len() == 0 {
        None
    } else {
        Some(join_lines(d))
    }
}

/// The payloads of one line: its trimmed payload if it is a `data: ` line.
fn line_payload(line: &Vec<char>, prefix: &Vec<char>, out: &mut Vec<Vec<char>>)
    requires
        prefix@ == "data: "@,
    ensures
        final(out)@.len() == old(out)@.len() + (if has_prefix(line@, "data: "@) { 1int } else { 0int }),
        forall|k: int| 0 <= k < old(out)@.len() ==> #[trigger] final(out)@[k] == old(out)@[k],
        has_prefix(line@, "data: "@) ==> final(out)@.last()@ == trim(line@.skip(6)),
{
    if starts_with(line, prefix) {
        proof {
            reveal_strlit("data: ");
        }
        let rest = slice_chars(line, 6, line.len());
        assert(rest@ =~= line@.skip(6));
        let t = trim_chars(&rest);
        out.push(t);
    }
}

/// The models of a list of character vectors.
pub open spec fn chars_list_view(v: Seq<Vec<char>>) -> Seq<Seq<char>> {
    Seq::new(v.len(), |i: int| v[i]@)
}

/// The data of one server-sent event block (see [`sse_data`]).
pub fn parse_sse_event(event_block: &str) -> (r: Option<String>)
    ensures
        match r {
            Some(d) => sse_data(event_block@) == Some(d@),
            None => sse_data(event_block@) is None,
        },
{
    let s = chars_of(event_block);
    let prefix = chars_of("data: ");
    let ghost whole = data_payloads(lines_from(s@, Seq::empty()));
    let mut data: Vec<Vec<char>> = Vec::new();
    let mut cur: Vec<char> = Vec::new();
    let mut i: usize = 0;
    assert(s@.skip(0) =~= s@);
    assert(chars_list_view(data@) + whole =~= whole);
    while i < s.len()
        invariant
            i <= s.len(),
            prefix@ == "data: "@,
            whole == chars_list_view(data@) + data_payloads(lines_from(s@.skip(i as int), cur@)),
        decreases s.len() - i,
    {
        let c = s[i];
        let ghost t = s@.skip(i as int);
        assert(t[0] == c);
        assert(t.drop_first() =~= s@.skip(i + 1));
        if c == '\n' {
            let ghost before = chars_list_view(data@);
            let ghost rest_lines = lines_from(s@.skip(i + 1), Seq::empty());
            let mut line = cur;
            if line.len() > 0 && line[line.len() - 1] == '\r' {
                line.pop();
            }
            assert(line@ == strip_cr(cur@));
            let ghost old_len = data@.len();
            line_payload(&line, &prefix, &mut data);
            proof {
                let l = strip_cr(cur@);
                let ls = seq![l] + rest_lines;
                assert(ls.drop_first() =~= rest_lines);
                assert(ls[0] == l);
                if has_prefix(l, "data: "@) {
                    assert(chars_list_view(data@) =~= before + seq![trim(l.skip(6))]);
                } else {
                    assert(chars_list_view(data@) =~= before);
                }
            }
            cur = Vec::new();
        } else {
            cur.push(c);
        }
        i = i + 1;
    }
    assert(s@.skip(i as int) =~= Seq::<char>::empty());
    if cur.len() > 0 {
        let ghost before = chars_list_view(data@);
        assert(lines_from(s@.skip(i as int), cur@) == seq![cur@]);
        line_payload(&cur, &prefix, &mut data);
        proof {
            let ls = seq![cur@];
            assert(ls.drop_first() =~= Seq::<Seq<char>>::empty());
            assert(data_payloads(Seq::<Seq<char>>::empty()) =~= Seq::<Seq<char>>::empty());
            if has_prefix(cur@, "data: "@) {
                assert(data_payloads(ls) =~= seq![trim(cur@.skip(6))]);
                assert(chars_list_view(data@) =~= before + seq![trim(cur@.skip(6))]);
            } else {
                assert(data_payloads(ls) =~= Seq::<Seq<char>>::empty());
                assert(chars_list_view(data@) =~= before);
            }
        }
    } else {
        assert(lines_from(s@.skip(i as int), cur@) =~= Seq::<Seq<char>>::empty());
        assert(data_payloads(Seq::<Seq<char>>::empty()) =~= Seq::<Seq<char>>::empty());
        assert(chars_list_view(data@) + Seq::<Seq<char>>::empty() =~= chars_list_view(data@));
    }
    assert(whole == chars_list_view(data@));
    if data.len() == 0 {
        return None;
    }
    let mut out = String::new();
    let mut k: usize = 0;
    while k < data.len()
        invariant
            k <= data.len(),
            whole == chars_list_view(data@),
            data.len() > 0,
            k == 0 ==> out@.len() == 0,
            k > 0 ==> out@ == join_lines(whole.take(k as int)),
        decreases data.len() - k,
    {
        let piece = string_of(&data[k]);
        if k > 0 {
            push_char(&mut out, '\n');
        }
        out.append(piece.as_str());
        proof {
            let tk = whole.take(k + 1);
            if k > 0 {
                assert(tk.drop_last() =~= whole.take(k as int));
                assert(tk.last() == whole[k as int]);
            } else {
                assert(tk.len() == 1);
                assert(out@ =~= tk[0]);
            }
        }
        k = k + 1;
    }
    assert(whole.take(data.len() as int) =~= whole);
    Some(out)
}

} // verus!
