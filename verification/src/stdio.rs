//! Output of bytes to a console.
//!
//! A console takes one byte at a time. A byte of zero ends an output: it is
//! still written, but nothing behind it is, and the output counts as failed.

use vstd::prelude::*;
use crate::string::{lemma_text_length, strlen, text, text_length};

verus! {

/// Something that shows bytes, one at a time.
pub trait Console {
    /// What a console is made of.
    type State;

    /// What this console is made of.
    spec fn state(&self) -> Self::State;

    /// A console after byte `c` has been written to it.
    spec fn put(state: Self::State, c: u8) -> Self::State;

    /// Writes byte `c`.
    fn write(&mut self, c: u8)
        ensures
            final(self).state() == Self::put(old(self).state(), c),
    ;
}

/// A console after the bytes of `bytes` have been written to it one by one.
pub open spec fn put_all<C: Console>(state: C::State, bytes: Seq<u8>) -> C::State
    decreases bytes.len(),
{
    if bytes.len() == 0 {
        state
    } else {
        C::put(put_all::<C>(state, bytes.drop_last()), bytes.last())
    }
}

/// The bytes of `bytes` that an output of them writes: all up to its first
/// zero byte, and that one with them.
pub open spec fn sent(bytes: Seq<u8>) -> Seq<u8> {
    if printable(bytes) {
        bytes
    } else {
        bytes.take(text_length(bytes) as int + 1)
    }
}

/// The bytes that an output of `bytes` as a line writes: `bytes` and a line
/// feed, or, if `bytes` holds a zero byte, what an output of `bytes` alone
/// writes.
pub open spec fn sent_line(bytes: Seq<u8>) -> Seq<u8> {
    if printable(bytes) {
        bytes.push(0x0A)
    } else {
        sent(bytes)
    }
}

/// Whether no byte of `bytes` is zero.
pub open spec fn printable(bytes: Seq<u8>) -> bool {
    text_length(bytes) == bytes.len()
}

/// Writes byte `ic` to the console and returns it.
pub fn putchar<C: Console>(console: &mut C, ic: u8) -> (written: u8)
    ensures
        written == ic,
        final(console).state() == C::put(old(console).state(), ic),
{
    console.write(ic);
    ic
}

/// Writes the bytes of `s` to the console, and returns whether all of them
/// were written. The output ends with the first zero byte.
pub fn print_bytes<C: Console>(console: &mut C, s: &[u8]) -> (ok: bool)
    ensures
        ok == printable(s@),
        final(console).state() == put_all::<C>(old(console).state(), sent(s@)),
{
    let mut i: usize = 0;
    while i < s.len()
        invariant
            i <= s.len(),
            i <= text_length(s@),
            console.state() == put_all::<C>(old(console).state(), s@.take(i as int)),
        decreases s.len() - i,
    {
        proof {
            lemma_text_length(s@, i as nat);
            assert(s@.take(i + 1).drop_last() =~= s@.take(i as int));
        }
        if putchar(console, s[i]) == 0 {
            return false;
        }
        i += 1;
    }
    proof {
        lemma_text_length(s@, i as nat);
        assert(s@.take(i as int) =~= s@);
    }
    true
}

/// Writes the bytes of `s` to the console; see [`print_bytes`].
pub fn kprint<C: Console>(console: &mut C, s: &[u8]) -> (ok: bool)
    ensures
        ok == printable(s@),
        final(console).state() == put_all::<C>(old(console).state(), sent(s@)),
{
    print_bytes(console, s)
}

/// Writes the bytes of `s` to the console and, if all of them were written,
/// a line feed behind them.
pub fn kprintln<C: Console>(console: &mut C, s: &[u8]) -> (ok: bool)
    ensures
        ok == printable(s@),
        final(console).state() == put_all::<C>(old(console).state(), sent_line(s@)),
{
    if !print_bytes(console, s) {
        return false;
    }
    proof {
        assert(s@.push(0x0A).drop_last() =~= s@);
    }
    console.write(0x0A);
    true
}

/// The byte that starts a conversion in a format.
pub const PERCENT: u8 = 0x25;

/// An argument of [`printf`].
#[derive(Clone, Copy, Debug)]
pub enum Arg<'a> {
    /// For `%c`: a character, of which the low eight bits are written.
    Char(i32),
    /// For `%s`: a C string.
    Str(&'a [u8]),
}

/// What an argument of [`printf`] holds.
pub enum ArgValue {
    Char(i32),
    Str(Seq<u8>),
}

impl<'a> View for Arg<'a> {
    type V = ArgValue;

    open spec fn view(&self) -> ArgValue {
        match self {
            Arg::Char(c) => ArgValue::Char(*c),
            Arg::Str(s) => ArgValue::Str(s@),
        }
    }
}

/// What the arguments of [`printf`] hold, in their order.
pub open spec fn arg_values(args: Seq<Arg>) -> Seq<ArgValue> {
    Seq::new(args.len(), |i: int| args[i]@)
}

/// What a formatted output comes to: the bytes that were written, and the
/// result, which is their number or -1 for a failure.
pub struct Printed {
    pub output: Seq<u8>,
    pub result: int,
}

/// A failure after `output` has been written.
pub open spec fn failed(output: Seq<u8>) -> Printed {
    Printed { output, result: -1 }
}

/// `rest`, with `bytes` written before it.
pub open spec fn after(bytes: Seq<u8>, rest: Printed) -> Printed {
    Printed { output: bytes + rest.output, result: rest.result }
}

/// The index of the first `%` in `fmt` at or behind index `from`, or the
/// length of `fmt` if there is none.
pub open spec fn run_end(fmt: Seq<u8>, from: int) -> int
    decreases fmt.len() - from,
{
    if from < 0 || from >= fmt.len() {
        fmt.len() as int
    } else if fmt[from] == PERCENT {
        from
    } else {
        run_end(fmt, from + 1)
    }
}

/// What formatting comes to from index `i` of the format `fmt` on, with the
/// arguments `args` left and `written` bytes written so far.
///
/// Text is written as it stands, up to the next `%`. `%%` writes one `%`,
/// which starts such a text. `%c` writes the low eight bits of the next
/// argument, and `%s` the C string that the next argument is. Any other
/// conversion is written as it stands, with the rest of the format behind
/// it, and a `%` that ends the format is dropped.
///
/// Formatting fails, before it writes the part concerned, where the number
/// of bytes would pass `i32::MAX`, and where the argument that a conversion
/// asks for is missing or of the other kind. It fails behind the character
/// where `%c` writes a zero byte.
pub open spec fn formatted(fmt: Seq<u8>, i: int, args: Seq<ArgValue>, written: int) -> Printed
    decreases fmt.len() - i,
{
    if i < 0 || i >= fmt.len() {
        Printed { output: Seq::empty(), result: written }
    } else if fmt[i] != PERCENT || (i + 1 < fmt.len() && fmt[i + 1] == PERCENT) {
        let start = if fmt[i] == PERCENT {
            i + 1
        } else {
            i
        };
        let end = run_end(fmt, start + 1);
        if i32::MAX - written < end - start {
            failed(Seq::empty())
        } else {
            proof {
                lemma_run_end(fmt, start + 1);
            }
            after(fmt.subrange(start, end), formatted(fmt, end, args, written + end - start))
        }
    } else if i + 1 >= fmt.len() {
        Printed { output: Seq::empty(), result: written }
    } else if fmt[i + 1] == 0x63 {
        if args.len() > 0 && args[0] is Char {
            let c = args[0]->Char_0 as u8;
            if written >= i32::MAX {
                failed(Seq::empty())
            } else if c == 0 {
                failed(seq![0u8])
            } else {
                after(seq![c], formatted(fmt, i + 2, args.drop_first(), written + 1))
            }
        } else {
            failed(Seq::empty())
        }
    } else if fmt[i + 1] == 0x73 {
        if args.len() > 0 && args[0] is Str {
            let s = text(args[0]->Str_0);
            if i32::MAX - written < s.len() {
                failed(Seq::empty())
            } else {
                after(s, formatted(fmt, i + 2, args.drop_first(), written + s.len()))
            }
        } else {
            failed(Seq::empty())
        }
    } else {
        let rest = fmt.subrange(i, fmt.len() as int);
        if i32::MAX - written < rest.len() {
            failed(Seq::empty())
        } else {
            Printed { output: rest, result: written + rest.len() }
        }
    }
}

/// The end of a run of text lies between its start and the end of the
/// format, and no `%` lies within the run.
pub proof fn lemma_run_end(fmt: Seq<u8>, from: int)
    requires
        0 <= from <= fmt.len(),
    ensures
        from <= run_end(fmt, from) <= fmt.len(),
        run_end(fmt, from) < fmt.len() ==> fmt[run_end(fmt, from)] == PERCENT,
        forall|k: int| from <= k < run_end(fmt, from) ==> fmt[k] != PERCENT,
    decreases fmt.len() - from,
{
    if from < fmt.len() && fmt[from] != PERCENT {
        lemma_run_end(fmt, from + 1);
    }
}

/// Formatting that does not fail returns the number of bytes that it wrote,
/// on top of those written before.
pub proof fn lemma_formatted_count(fmt: Seq<u8>, i: int, args: Seq<ArgValue>, written: int)
    requires
        0 <= i,
        0 <= written,
    ensures
        formatted(fmt, i, args, written).result == -1 || formatted(fmt, i, args, written).result
            == written + formatted(fmt, i, args, written).output.len(),
    decreases fmt.len() - i,
{
    if i < fmt.len() {
        if fmt[i] != PERCENT || (i + 1 < fmt.len() && fmt[i + 1] == PERCENT) {
            let start = if fmt[i] == PERCENT {
                i + 1
            } else {
                i
            };
            let end = run_end(fmt, start + 1);
            lemma_run_end(fmt, start + 1);
            if i32::MAX - written >= end - start {
                lemma_formatted_count(fmt, end, args, written + end - start);
            }
        } else if i + 1 < fmt.len() && args.len() > 0 {
            if fmt[i + 1] == 0x63 && args[0] is Char && written < i32::MAX {
                lemma_formatted_count(fmt, i + 2, args.drop_first(), written + 1);
            } else if fmt[i + 1] == 0x73 && args[0] is Str {
                let s = text(args[0]->Str_0);
                if i32::MAX - written >= s.len() {
                    lemma_formatted_count(fmt, i + 2, args.drop_first(), written + s.len());
                }
            }
        }
    }
}

/// A format without a `%` is written as it stands, whatever the arguments.
pub proof fn lemma_plain_format(fmt: Seq<u8>, args: Seq<ArgValue>)
    requires
        fmt.len() <= i32::MAX,
        forall|k: int| 0 <= k < fmt.len() ==> fmt[k] != PERCENT,
    ensures
        formatted(fmt, 0, args, 0) == (Printed { output: fmt, result: fmt.len() as int }),
{
    if fmt.len() > 0 {
        lemma_run_end(fmt, 1);
        assert(fmt.subrange(0, fmt.len() as int) =~= fmt);
        assert(formatted(fmt, fmt.len() as int, args, fmt.len() as int) == (Printed {
            output: Seq::empty(),
            result: fmt.len() as int,
        }));
    } else {
        assert(fmt =~= Seq::<u8>::empty());
    }
}

/// Bytes none of which is zero are written in full.
pub proof fn lemma_printable(bytes: Seq<u8>)
    requires
        forall|i: int| 0 <= i < bytes.len() ==> bytes[i] != 0,
    ensures
        printable(bytes),
        sent(bytes) == bytes,
    decreases bytes.len(),
{
    if bytes.len() > 0 {
        lemma_printable(bytes.drop_first());
    }
}

/// Writing two runs of bytes one after the other is writing them joined.
pub proof fn lemma_put_all_joined<C: Console>(state: C::State, first: Seq<u8>, second: Seq<u8>)
    ensures
        put_all::<C>(state, first + second) == put_all::<C>(put_all::<C>(state, first), second),
    decreases second.len(),
{
    if second.len() > 0 {
        lemma_put_all_joined::<C>(state, first, second.drop_last());
        assert((first + second).drop_last() =~= first + second.drop_last());
    }
}

/// Writes `format` to the console with the conversions in it filled in from
/// `args`, and returns the number of bytes written, or -1 for a failure.
///
/// The format is a C string; `%c`, `%s` and `%%` are the conversions. See
/// [`formatted`] for what is written.
pub fn printf<C: Console>(console: &mut C, format: &[u8], args: &[Arg]) -> (written: i32)
    ensures
        written == formatted(text(format@), 0, arg_values(args@), 0).result,
        final(console).state() == put_all::<C>(
            old(console).state(),
            formatted(text(format@), 0, arg_values(args@), 0).output,
        ),
{
    let fmt_len: usize = strlen(format);
    proof {
        lemma_text_length(format@, 0);
    }
    let fmt: &[u8] = vstd::slice::slice_subrange(format, 0, fmt_len);
    let ghost all = arg_values(args@);
    let ghost whole = formatted(fmt@, 0, all, 0);
    let ghost mut out: Seq<u8> = Seq::empty();
    let mut written: i32 = 0;
    let mut i: usize = 0;
    let mut next: usize = 0;
    proof {
        assert forall|k: int| 0 <= k < fmt@.len() implies fmt@[k] != 0 by {
            lemma_text_length(format@, k as nat);
        }
        assert(all.skip(0) =~= all);
    }
    while i < fmt.len()
        invariant
            i <= fmt@.len(),
            fmt@.len() == fmt_len,
            next <= args@.len(),
            0 <= written,
            all == arg_values(args@),
            whole == formatted(text(format@), 0, arg_values(args@), 0),
            forall|k: int| 0 <= k < fmt@.len() ==> fmt@[k] != 0,
            whole == after(out, formatted(fmt@, i as int, all.skip(next as int), written as int)),
            console.state() == put_all::<C>(old(console).state(), out),
        ensures
            whole == after(
                out,
                Printed { output: Seq::empty(), result: written as int },
            ),
            console.state() == put_all::<C>(old(console).state(), out),
        decreases fmt@.len() - i,
    {
        let maxrem: i32 = i32::MAX - written;
        let ghost left = all.skip(next as int);
        if fmt[i] != PERCENT || (i + 1 < fmt.len() && fmt[i + 1] == PERCENT) {
            if fmt[i] == PERCENT {
                i += 1;
            }
            let start: usize = i;
            i += 1;
            while i < fmt.len() && fmt[i] != PERCENT
                invariant
                    start < i <= fmt@.len(),
                    run_end(fmt@, i as int) == run_end(fmt@, start + 1),
                decreases fmt@.len() - i,
            {
                i += 1;
            }
            proof {
                lemma_run_end(fmt@, start + 1);
                lemma_run_end(fmt@, i as int);
            }
            let amount: usize = i - start;
            if (maxrem as usize) < amount {
                return -1;
            }
            let run: &[u8] = vstd::slice::slice_subrange(fmt, start, i);
            proof {
                lemma_printable(run@);
                lemma_put_all_joined::<C>(old(console).state(), out, run@);
            }
            if !print_bytes(console, run) {
                return -1;
            }
            proof {
                let rest = formatted(fmt@, i as int, left, written + amount);
                assert(out + (run@ + rest.output) =~= (out + run@) + rest.output);
                out = out + run@;
            }
            written += amount as i32;
            continue ;
        }
        let format_begun_at: usize = i;
        i += 1;
        if i >= fmt.len() {
            break ;
        }
        let conversion: u8 = fmt[i];
        if conversion == 0x63 {
            i += 1;
            if next >= args.len() {
                return -1;
            }
            let c: u8 = match args[next] {
                Arg::Char(value) => #[verifier::truncate]
                (value as u8),
                Arg::Str(_) => {
                    return -1;
                },
            };
            if maxrem == 0 {
                return -1;
            }
            proof {
                let before = console.state();
                lemma_put_all_joined::<C>(old(console).state(), out, seq![c]);
                assert(seq![c].drop_last() =~= Seq::<u8>::empty());
                assert(put_all::<C>(before, Seq::<u8>::empty()) == before);
                assert(left.drop_first() =~= all.skip(next + 1));
            }
            console.write(c);
            if c == 0 {
                return -1;
            }
            proof {
                let rest = formatted(fmt@, i as int, all.skip(next + 1), written + 1);
                assert(out + (seq![c] + rest.output) =~= (out + seq![c]) + rest.output);
                out = out + seq![c];
            }
            next += 1;
            written += 1;
        } else if conversion == 0x73 {
            i += 1;
            if next >= args.len() {
                return -1;
            }
            let string: &[u8] = match args[next] {
                Arg::Str(string) => string,
                Arg::Char(_) => {
                    return -1;
                },
            };
            let len: usize = strlen(string);
            proof {
                lemma_text_length(string@, 0);
            }
            if (maxrem as usize) < len {
                return -1;
            }
            let s: &[u8] = vstd::slice::slice_subrange(string, 0, len);
            proof {
                assert forall|k: int| 0 <= k < s@.len() implies s@[k] != 0 by {
                    lemma_text_length(string@, k as nat);
                }
                lemma_printable(s@);
                lemma_put_all_joined::<C>(old(console).state(), out, s@);
                assert(left.drop_first() =~= all.skip(next + 1));
            }
            if !print_bytes(console, s) {
                return -1;
            }
            proof {
                let rest = formatted(fmt@, i as int, all.skip(next + 1), written + len);
                assert(out + (s@ + rest.output) =~= (out + s@) + rest.output);
                out = out + s@;
            }
            next += 1;
            written += len as i32;
        } else {
            let remaining: &[u8] = vstd::slice::slice_subrange(fmt, format_begun_at, fmt.len());
            let len: usize = remaining.len();
            if (maxrem as usize) < len {
                return -1;
            }
            proof {
                lemma_printable(remaining@);
                lemma_put_all_joined::<C>(old(console).state(), out, remaining@);
            }
            if !print_bytes(console, remaining) {
                return -1;
            }
            proof {
                out = out + remaining@;
            }
            written += len as i32;
            i = fmt.len();
        }
    }
    written
}

/// Writes the C string in `s` to the console, and returns whether all of it
/// was written, which it always is.
pub fn print<C: Console>(console: &mut C, s: &[u8]) -> (ok: bool)
    ensures
        ok,
        final(console).state() == put_all::<C>(old(console).state(), text(s@)),
{
    let len: usize = strlen(s);
    proof {
        lemma_text_length(s@, 0);
    }
    let bytes: &[u8] = vstd::slice::slice_subrange(s, 0, len);
    proof {
        assert forall|k: int| 0 <= k < bytes@.len() implies bytes@[k] != 0 by {
            lemma_text_length(s@, k as nat);
        }
        lemma_printable(bytes@);
    }
    print_bytes(console, bytes)
}

/// Writes the C string in `s` to the console as a format without arguments;
/// see [`printf`].
pub fn puts<C: Console>(console: &mut C, s: &[u8]) -> (written: i32)
    ensures
        written == formatted(text(s@), 0, Seq::empty(), 0).result,
        final(console).state() == put_all::<C>(
            old(console).state(),
            formatted(text(s@), 0, Seq::empty(), 0).output,
        ),
{
    let none: [Arg; 0] = [];
    assert(arg_values(none@) =~= Seq::<ArgValue>::empty());
    printf(console, s, &none)
}

} // verus!
