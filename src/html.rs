use vstd::prelude::*;
use crate::function::ReactiveFunction;

verus! {

/// The decimal digits of `n`, as ASCII bytes.
pub open spec fn decimal(n: nat) -> Seq<u8>
    decreases n,
{
    if n < 10 {
        seq![(48 + n) as u8]
    } else {
        decimal(n / 10).push((48 + n % 10) as u8)
    }
}

/// Appends the decimal digits of `n` to `buf`.
pub fn push_decimal(n: u64, buf: &mut Vec<u8>)
    ensures
        final(buf)@ == old(buf)@ + decimal(n as nat),
    decreases n,
{
    if n >= 10 {
        push_decimal(n / 10, buf);
    }
    buf.push(48u8 + (n % 10) as u8);
    proof {
        if n >= 10 {
            assert(old(buf)@ + decimal(n as nat) =~= old(buf)@ + decimal((n / 10) as nat) + seq![(48 + n % 10) as u8]);
        } else {
            assert(old(buf)@ + decimal(n as nat) =~= old(buf)@.push((48 + n % 10) as u8));
        }
    }
}

/// The least length of what `to_html` writes that can be known before the
/// function runs: none, since its value is not known.
pub fn html_len<F: ReactiveFunction<Output = u64>>(fun: &F) -> (r: usize)
    ensures
        r == 0,
{
    0
}

/// Writes the current value as text: the function is called once, and no
/// effect is kept, since written text has nothing left to update.
pub fn to_html<F: ReactiveFunction<Output = u64>>(fun: F, buf: &mut Vec<u8>)
    ensures
        final(buf)@ == old(buf)@ + decimal(fun.next_output() as nat),
{
    let mut fun = fun;
    let value = fun.invoke();
    push_decimal(value, buf);
}

/// Output that streams out of order: the chunks already closed, and the
/// synchronous text being written.
pub struct StreamBuilder {
    pub chunks: Vec<Vec<u8>>,
    pub sync_buf: Vec<u8>,
}

impl StreamBuilder {
    pub fn new() -> (r: StreamBuilder)
        ensures
            r.chunks@.len() == 0,
            r.sync_buf@ == Seq::<u8>::empty(),
    {
        StreamBuilder { chunks: Vec::new(), sync_buf: Vec::new() }
    }
}

/// Writes the current value into a stream: the function is called once and
/// its text joins the synchronous part; no chunk is closed.
pub fn to_html_async<F: ReactiveFunction<Output = u64>>(fun: F, stream: &mut StreamBuilder)
    ensures
        final(stream).sync_buf@ == old(stream).sync_buf@ + decimal(fun.next_output() as nat),
        final(stream).chunks@ == old(stream).chunks@,
{
    let mut fun = fun;
    let value = fun.invoke();
    push_decimal(value, &mut stream.sync_buf);
}

/// Reads the function ahead of serialisation, so that what it depends on is
/// known early; the value is discarded.
pub fn dry_resolve<F: ReactiveFunction<Output = u64>>(fun: &mut F)
    ensures
        final(fun).next_output() == old(fun).next_output(),
        final(fun).reads() == old(fun).reads() + 1,
{
    let _ = fun.invoke();
}

} // verus!
