//! The input side: turning a stream of datagrams into 32-bit little-endian
//! sample words, and the decisions of the receive loop.
use vstd::prelude::*;

verus! {

/// Bytes per sample on the wire (one little-endian 32-bit float).
pub const SAMPLE_BYTES: usize = 4;

/// Poll token of the input socket.
pub const UDP_TOKEN: usize = 0;

/// Poll token of the waker that asks the input loop to stop.
pub const WAKER_TOKEN: usize = 1;

/// The little-endian 32-bit word whose bytes are `b[i]`, .., `b[i + 3]`.
pub open spec fn le_word(b: Seq<u8>, i: int) -> u32 {
    (b[i] as int + 256 * b[i + 1] as int + 65536 * b[i + 2] as int + 16777216 * b[i + 3] as int) as u32
}

/// The number of bytes of `n` that make up whole words.
pub open spec fn whole_words_len(n: nat) -> nat {
    (n - n % 4) as nat
}

/// The whole words at the front of `b`, in order.
pub open spec fn words_of(b: Seq<u8>) -> Seq<u32> {
    Seq::new(b.len() / 4, |k: int| le_word(b, 4 * k))
}

/// What arriving `data` does to a framer holding `fifo`: the words it
/// completes and the bytes left over for the next datagram.
pub open spec fn reframe(fifo: Seq<u8>, data: Seq<u8>) -> (Seq<u32>, Seq<u8>) {
    let s = fifo + data;
    (words_of(s), s.subrange(whole_words_len(s.len()) as int, s.len() as int))
}

/// The four bytes of `w`, least significant first.
pub open spec fn word_le_bytes(w: u32) -> Seq<u8> {
    seq![(w % 256) as u8, ((w / 256) % 256) as u8, ((w / 65536) % 256) as u8, (w / 16777216) as u8]
}

/// The bytes of a run of words, each written least significant byte first.
pub open spec fn bytes_of_words(ws: Seq<u32>) -> Seq<u8>
    decreases ws.len(),
{
    if ws.len() == 0 {
        Seq::empty()
    } else {
        word_le_bytes(ws[0]) + bytes_of_words(ws.drop_first())
    }
}

proof fn lemma_word_bytes(b0: u8, b1: u8, b2: u8, b3: u8)
    ensures
        word_le_bytes((b0 as int + 256 * b1 as int + 65536 * b2 as int + 16777216 * b3 as int) as u32)
            == seq![b0, b1, b2, b3],
{
    let w: int = b0 as int + 256 * b1 as int + 65536 * b2 as int + 16777216 * b3 as int;
    assert(0 <= w < 4294967296);
    assert(w % 256 == b0) by (nonlinear_arith)
        requires w == b0 as int + 256 * b1 as int + 65536 * b2 as int + 16777216 * b3 as int,
            0 <= b0 < 256, 0 <= b1 < 256, 0 <= b2 < 256, 0 <= b3 < 256;
    assert((w / 256) % 256 == b1) by (nonlinear_arith)
        requires w == b0 as int + 256 * b1 as int + 65536 * b2 as int + 16777216 * b3 as int,
            0 <= b0 < 256, 0 <= b1 < 256, 0 <= b2 < 256, 0 <= b3 < 256;
    assert((w / 65536) % 256 == b2) by (nonlinear_arith)
        requires w == b0 as int + 256 * b1 as int + 65536 * b2 as int + 16777216 * b3 as int,
            0 <= b0 < 256, 0 <= b1 < 256, 0 <= b2 < 256, 0 <= b3 < 256;
    assert(w / 16777216 == b3) by (nonlinear_arith)
        requires w == b0 as int + 256 * b1 as int + 65536 * b2 as int + 16777216 * b3 as int,
            0 <= b0 < 256, 0 <= b1 < 256, 0 <= b2 < 256, 0 <= b3 < 256;
    assert(word_le_bytes(w as u32) =~= seq![b0, b1, b2, b3]);
}

proof fn lemma_words_bytes(s: Seq<u8>)
    ensures
        bytes_of_words(words_of(s)) == s.subrange(0, whole_words_len(s.len()) as int),
    decreases s.len(),
{
    if s.len() < 4 {
        assert(words_of(s) =~= Seq::<u32>::empty());
        assert(s.subrange(0, whole_words_len(s.len()) as int) =~= Seq::<u8>::empty());
    } else {
        let t = s.subrange(4, s.len() as int);
        lemma_words_bytes(t);
        assert(words_of(s).drop_first() =~= words_of(t));
        lemma_word_bytes(s[0], s[1], s[2], s[3]);
        assert(word_le_bytes(words_of(s)[0]) == seq![s[0], s[1], s[2], s[3]]);
        assert(whole_words_len(s.len()) == whole_words_len(t.len()) + 4);
        assert(s.subrange(0, whole_words_len(s.len()) as int) =~= seq![s[0], s[1], s[2], s[3]]
            + t.subrange(0, whole_words_len(t.len()) as int));
    }
}

/// No byte of a datagram is lost, duplicated or reordered: the words handed
/// out, written back as little-endian bytes and followed by the bytes still
/// held, are exactly the bytes held before followed by the datagram; fewer
/// than four bytes are held afterwards.
pub proof fn lemma_reframe_conserves_bytes(fifo: Seq<u8>, data: Seq<u8>)
    ensures
        ({
            let (words, rest) = reframe(fifo, data);
            &&& bytes_of_words(words) + rest == fifo + data
            &&& rest.len() < 4
            &&& 4 * words.len() + rest.len() == fifo.len() + data.len()
        }),
{
    let s = fifo + data;
    lemma_words_bytes(s);
    let w = whole_words_len(s.len()) as int;
    assert(s.subrange(0, w) + s.subrange(w, s.len() as int) =~= s);
}

/// Where datagram boundaries fall does not matter: receiving `a` and then
/// `b` hands out the same words, in the same order, and leaves the same
/// bytes held, as receiving `a` and `b` in one datagram.
pub proof fn lemma_reframe_chunking(fifo: Seq<u8>, a: Seq<u8>, b: Seq<u8>)
    ensures
        ({
            let (w1, r1) = reframe(fifo, a);
            let (w2, r2) = reframe(r1, b);
            let (w, r) = reframe(fifo, a + b);
            &&& w1 + w2 == w
            &&& r2 == r
        }),
{
    let s = fifo + a;
    let n = whole_words_len(s.len()) as int;
    let r1 = s.subrange(n, s.len() as int);
    let t = r1 + b;
    let u = fifo + (a + b);
    assert(u =~= s + b);
    assert(n == 4 * (s.len() / 4));
    assert(t.len() == u.len() - n);
    assert(u.len() / 4 == s.len() / 4 + t.len() / 4) by (nonlinear_arith)
        requires t.len() == u.len() - n, n == 4 * (s.len() / 4);
    assert forall|i: int| 0 <= i < t.len() implies #[trigger] t[i] == u[n + i] by {
        if i < r1.len() {
            assert(t[i] == s[n + i]);
        } else {
            assert(t[i] == b[i - r1.len()]);
        }
    }
    assert forall|i: int| 0 <= i < s.len() implies #[trigger] u[i] == s[i] by {}
    let w1 = words_of(s);
    let w2 = words_of(t);
    let w = words_of(u);
    assert forall|k: int| 0 <= k < w.len() implies #[trigger] w[k] == (w1 + w2)[k] by {
        if k < w1.len() {
            assert(4 * k + 3 < s.len());
            assert(u[4 * k] == s[4 * k]);
            assert(u[4 * k + 1] == s[4 * k + 1]);
            assert(u[4 * k + 2] == s[4 * k + 2]);
            assert(u[4 * k + 3] == s[4 * k + 3]);
        } else {
            let j = k - w1.len();
            assert(4 * j + 3 < t.len());
            assert(n + 4 * j == 4 * k);
            assert(t[4 * j] == u[4 * k]);
            assert(t[4 * j + 1] == u[4 * k + 1]);
            assert(t[4 * j + 2] == u[4 * k + 2]);
            assert(t[4 * j + 3] == u[4 * k + 3]);
        }
    }
    assert(w1 + w2 =~= w);
    let m = whole_words_len(t.len()) as int;
    let mu = whole_words_len(u.len()) as int;
    assert(mu == n + m);
    assert(t.subrange(m, t.len() as int) =~= u.subrange(mu, u.len() as int));
}

/// Reassembles sample words from datagrams whose boundaries need not fall
/// between samples.
pub struct SampleFramer {
    fifo: Vec<u8>,
}

impl SampleFramer {
    /// The bytes received that do not yet make up a whole word.
    pub closed spec fn pending(&self) -> Seq<u8> {
        self.fifo@
    }

    /// A framer holding nothing.
    pub fn new() -> (f: SampleFramer)
        ensures
            f.pending() == Seq::<u8>::empty(),
    {
        SampleFramer { fifo: Vec::new() }
    }

    /// The number of bytes held.
    pub fn pending_len(&self) -> (n: usize)
        ensures
            n == self.pending().len(),
    {
        self.fifo.len()
    }

    /// Takes one datagram: appends it to the held bytes, hands out every
    /// whole word at their front, and keeps the remaining bytes.
    pub fn push(&mut self, data: &[u8]) -> (words: Vec<u32>)
        requires
            old(self).pending().len() + data@.len() <= usize::MAX,
        ensures
            ({
                let (w, rest) = reframe(old(self).pending(), data@);
                &&& words@ == w
                &&& final(self).pending() == rest
            }),
    {
        let ghost s = self.fifo@ + data@;
        let mut i: usize = 0;
        while i < data.len()
            invariant
                i <= data@.len(),
                s == old(self).pending() + data@,
                self.fifo@ == old(self).pending() + data@.subrange(0, i as int),
            decreases data@.len() - i,
        {
            self.fifo.push(data[i]);
            i = i + 1;
            assert(data@.subrange(0, i as int) == data@.subrange(0, i - 1).push(data@[i - 1]));
        }
        assert(data@.subrange(0, data@.len() as int) == data@);
        let len = self.fifo.len();
        let usable: usize = len - len % SAMPLE_BYTES;
        let mut words: Vec<u32> = Vec::with_capacity(usable / SAMPLE_BYTES);
        let mut k: usize = 0;
        while k < usable
            invariant
                self.fifo@ == s,
                len == s.len(),
                usable == whole_words_len(s.len()),
                k % 4 == 0,
                k <= usable,
                words@ == words_of(s).subrange(0, (k / 4) as int),
            decreases usable - k,
        {
            let w: u32 = (self.fifo[k] as u32) + (self.fifo[k + 1] as u32) * 256
                + (self.fifo[k + 2] as u32) * 65536 + (self.fifo[k + 3] as u32) * 16777216;
            assert(w == le_word(s, k as int));
            words.push(w);
            assert(words_of(s).subrange(0, (k / 4) as int + 1) == words_of(s).subrange(0, (k / 4) as int).push(le_word(s, k as int)));
            k = k + SAMPLE_BYTES;
        }
        assert(words_of(s).subrange(0, (usable / 4) as int) == words_of(s));
        let mut rest: Vec<u8> = Vec::with_capacity(len - usable);
        let mut j: usize = usable;
        while j < len
            invariant
                self.fifo@ == s,
                len == s.len(),
                usable <= j <= len,
                rest@ == s.subrange(usable as int, j as int),
            decreases len - j,
        {
            rest.push(self.fifo[j]);
            j = j + 1;
            assert(s.subrange(usable as int, j as int) == s.subrange(usable as int, j - 1).push(s[j - 1]));
        }
        self.fifo = rest;
        words
    }
}

} // verus!

verus! {

/// The kinds of I/O failure that the receive loop tells apart.
#[derive(Debug, Clone, Copy, PartialEq, Eq)]
pub enum IoErrorKind {
    /// The call was interrupted by a signal before it could finish.
    Interrupted,
    /// The non-blocking socket has nothing more to read for now.
    WouldBlock,
    /// Any other failure.
    Other,
}

/// What the loop does with a readiness event, by its token.
#[derive(Debug, Clone, Copy, PartialEq, Eq)]
pub enum TokenAction {
    /// The waker fired: leave the loop successfully.
    Stop,
    /// The socket is readable: receive datagrams until none is left.
    Receive,
    /// A token that nothing was registered with.
    Unexpected,
}

/// What the loop does after waiting for events failed.
#[derive(Debug, Clone, Copy, PartialEq, Eq)]
pub enum PollStep {
    /// Wait again.
    Retry,
    /// Leave the loop with the error.
    Fail,
}

/// What the loop does after receiving a datagram failed.
#[derive(Debug, Clone, Copy, PartialEq, Eq)]
pub enum ReceiveStep {
    /// The socket is drained; go back to waiting for events.
    Drained,
    /// Leave the loop with the error.
    Fail,
}

/// The action for an event carrying `token`.
pub fn token_action(token: usize) -> (a: TokenAction)
    ensures
        token == WAKER_TOKEN ==> a == TokenAction::Stop,
        token == UDP_TOKEN ==> a == TokenAction::Receive,
        token != WAKER_TOKEN && token != UDP_TOKEN ==> a == TokenAction::Unexpected,
{
    if token == WAKER_TOKEN {
        TokenAction::Stop
    } else if token == UDP_TOKEN {
        TokenAction::Receive
    } else {
        TokenAction::Unexpected
    }
}

/// An interrupted wait is retried; every other failure ends the loop.
pub fn after_poll_error(kind: IoErrorKind) -> (step: PollStep)
    ensures
        step == PollStep::Retry <==> kind == IoErrorKind::Interrupted,
{
    match kind {
        IoErrorKind::Interrupted => PollStep::Retry,
        _ => PollStep::Fail,
    }
}

/// A receive that would block means the socket is drained; every other
/// failure ends the loop.
pub fn after_receive_error(kind: IoErrorKind) -> (step: ReceiveStep)
    ensures
        step == ReceiveStep::Drained <==> kind == IoErrorKind::WouldBlock,
{
    match kind {
        IoErrorKind::WouldBlock => ReceiveStep::Drained,
        _ => ReceiveStep::Fail,
    }
}

} // verus!
