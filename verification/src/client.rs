//! The TCP clients: what they write, and how they go on after a write.

use vstd::prelude::*;

use crate::text::decimal_text;

verus! {

/// How often the greeting is written.
pub const GREETINGS: u32 = 10;

/// The number of bytes in a block.
pub const BLOCK_LEN: usize = 1_048_576;

/// The value of every byte in a block.
pub const BLOCK_BYTE: u8 = 42;

/// The bytes of `hello` and a line end.
pub open spec fn greeting() -> Seq<u8> {
    seq![104, 101, 108, 108, 111, 13, 10]
}

/// How many greetings are left after one more call for the next.
pub open spec fn one_less(left: nat) -> nat {
    if left == 0 {
        0
    } else {
        (left - 1) as nat
    }
}

/// A client that writes the greeting a fixed number of times.
pub struct Greeter {
    left: u32,
}

impl Greeter {
    /// How many greetings are yet to be written.
    pub closed spec fn left(&self) -> nat {
        self.left as nat
    }

    /// The client before its first write.
    pub fn new() -> (greeter: Self)
        ensures
            greeter.left() == GREETINGS,
    {
        Greeter { left: GREETINGS }
    }

    /// The bytes of the next write, or `None` once all are written. A greeting
    /// counts as written however many of its bytes the socket takes.
    pub fn next(&mut self) -> (data: Option<Vec<u8>>)
        ensures
            final(self).left() == one_less(old(self).left()),
            data is None <==> old(self).left() == 0,
            data is Some ==> data->0@ == greeting(),
            data is Some ==> data->0@ == seq![104u8, 101, 108, 108, 111, 13, 10],
            data is Some ==> final(self).left() == old(self).left() - 1,
            data is None ==> final(self).left() == 0,
    {
        if self.left == 0 {
            None
        } else {
            self.left = self.left - 1;
            let data: Vec<u8> = vec![104, 101, 108, 108, 111, 13, 10];
            assert(data@ == greeting());
            Some(data)
        }
    }
}

/// How many greetings are left after so many calls for the next.
pub open spec fn left_after(calls: nat) -> nat
    decreases calls,
{
    if calls == 0 {
        GREETINGS as nat
    } else {
        one_less(left_after((calls - 1) as nat))
    }
}

/// The first calls for the next greeting get one each, until all are written.
pub proof fn every_greeting_is_written_once(calls: nat)
    ensures
        calls <= GREETINGS ==> left_after(calls) == GREETINGS - calls,
        calls >= GREETINGS ==> left_after(calls) == 0,
    decreases calls,
{
    if calls > 0 {
        every_greeting_is_written_once((calls - 1) as nat);
    }
}

/// The line that reports a write of `n` bytes.
pub open spec fn report_text(n: nat) -> Seq<char> {
    "wrote "@ + crate::text::decimal(n) + " bytes to the socket"@
}

/// What stands between `wrote ` and ` bytes to the socket` in the report is the
/// count in decimal: read back as a number, it gives the count.
pub proof fn a_report_tells_the_count(n: nat)
    ensures
        ({
            let line = report_text(n);
            let end = line.len() - 20;
            &&& end > 6
            &&& line.take(6) == seq!['w', 'r', 'o', 't', 'e', ' ']
            &&& line.skip(end) == " bytes to the socket"@
            &&& crate::text::reads_as(line.subrange(6, end), n)
        }),
{
    reveal_strlit("wrote ");
    reveal_strlit(" bytes to the socket");
    crate::text::decimal_reads_back(n);
    let line = report_text(n);
    let end = line.len() - 20;
    assert(line.take(6) =~= seq!['w', 'r', 'o', 't', 'e', ' ']);
    assert(line.skip(end) =~= " bytes to the socket"@);
    assert(line.subrange(6, end) =~= crate::text::decimal(n));
}

/// Reports of different counts differ.
pub proof fn different_reports_differ(a: nat, b: nat)
    requires
        a != b,
    ensures
        report_text(a) != report_text(b),
{
    a_report_tells_the_count(a);
    a_report_tells_the_count(b);
}

/// Reports a write of `n` bytes.
pub fn report(n: usize) -> (line: String)
    ensures
        line@ == report_text(n as nat),
        line@.len() > 26,
        line@.take(6) == "wrote "@,
        line@.skip(line@.len() - 20) == " bytes to the socket"@,
        crate::text::reads_as(line@.subrange(6, line@.len() - 20), n as nat),
{
    let mut line: String = String::new();
    line.append("wrote ");
    line.append(decimal_text(n).as_str());
    line.append(" bytes to the socket");
    assert(line@ == report_text(n as nat));
    proof {
        a_report_tells_the_count(n as nat);
        reveal_strlit("wrote ");
        assert("wrote "@ =~= seq!['w', 'r', 'o', 't', 'e', ' ']);
    }
    line
}

/// The number of bytes sent so far.
pub struct SentBytes {
    bytes: usize,
}

impl View for SentBytes {
    type V = nat;

    closed spec fn view(&self) -> nat {
        self.bytes as nat
    }
}

impl SentBytes {
    /// Nothing is sent.
    pub fn new() -> (sent: Self)
        ensures
            sent@ == 0,
    {
        SentBytes { bytes: 0 }
    }

    /// The number of bytes sent.
    pub fn get(&self) -> (bytes: usize)
        ensures
            bytes == self@,
    {
        self.bytes
    }

    /// Counts `n` more bytes, which must not exceed what can be counted.
    pub fn count(&mut self, n: usize)
        requires
            old(self)@ + n <= usize::MAX,
        ensures
            final(self)@ == old(self)@ + n,
    {
        self.bytes = self.bytes + n;
    }
}

/// A client that writes the same block over and over.
pub struct Upload {
    data: Vec<u8>,
    offset: usize,
}

/// The offset in the block after a write of `n` bytes at `offset`: a block that
/// is written to its end is begun again.
pub open spec fn advanced(offset: nat, n: nat) -> nat {
    if offset + n == BLOCK_LEN {
        0
    } else {
        offset + n
    }
}

impl Upload {
    /// The block.
    pub closed spec fn data(&self) -> Seq<u8> {
        self.data@
    }

    /// How much of the block is written.
    pub closed spec fn offset(&self) -> nat {
        self.offset as nat
    }

    /// The block is whole and something of it is left to be written.
    pub open spec fn wf(&self) -> bool {
        &&& self.data() == Seq::new(BLOCK_LEN as nat, |i: int| BLOCK_BYTE)
        &&& self.offset() < BLOCK_LEN
    }

    /// The client before its first write.
    pub fn new() -> (upload: Self)
        ensures
            upload.wf(),
            upload.offset() == 0,
            upload.data().len() == 1_048_576,
            forall|i: int| 0 <= i < upload.data().len() ==> #[trigger] upload.data()[i] == 42,
    {
        let data: Vec<u8> = vec![BLOCK_BYTE; BLOCK_LEN];
        assert(data@ == Seq::new(BLOCK_LEN as nat, |i: int| BLOCK_BYTE));
        Upload { data, offset: 0 }
    }

    /// The bytes of the next write: what is left of the block, and never
    /// nothing.
    pub fn pending(&self) -> (data: &[u8])
        requires
            self.wf(),
        ensures
            data@ == self.data().skip(self.offset() as int),
            data@.len() > 0,
            data@.len() == 1_048_576 - self.offset(),
            forall|i: int| 0 <= i < data@.len() ==> #[trigger] data@[i] == 42,
    {
        let data = vstd::slice::slice_subrange(self.data.as_slice(), self.offset, self.data.len());
        assert(data@ == self.data@.skip(self.offset as int));
        data
    }

    /// Goes on after the socket took `n` of the pending bytes.
    pub fn wrote(&mut self, n: usize, sent: &mut SentBytes)
        requires
            old(self).wf(),
            old(self).offset() + n <= BLOCK_LEN,
            old(sent)@ + n <= usize::MAX,
        ensures
            final(self).wf(),
            final(self).offset() == advanced(old(self).offset(), n as nat),
            final(self).offset() == (old(self).offset() + n) % 1_048_576,
            final(self).data() == old(self).data(),
            final(sent)@ == old(sent)@ + n,
    {
        sent.count(n);
        let offset: usize = self.offset + n;
        self.offset = if offset == BLOCK_LEN {
            0
        } else {
            offset
        };
    }
}

/// A write moves on by what the socket took, counted round the block.
pub proof fn a_write_moves_on_round_the_block(offset: nat, n: nat)
    requires
        offset < BLOCK_LEN,
        offset + n <= BLOCK_LEN,
    ensures
        advanced(offset, n) == (offset + n) % 1_048_576,
{
}

/// Two writes in a row move on as one write of both together does, as long as
/// both fit in the block.
pub proof fn writes_add_up(offset: nat, m: nat, n: nat)
    requires
        offset < BLOCK_LEN,
        offset + m < BLOCK_LEN,
        offset + m + n <= BLOCK_LEN,
    ensures
        advanced(advanced(offset, m), n) == advanced(offset, m + n),
{
}

/// The offset in the block after a history of writes.
pub open spec fn offset_after(writes: Seq<nat>) -> nat
    decreases writes.len(),
{
    if writes.len() == 0 {
        0
    } else {
        advanced(offset_after(writes.drop_last()), writes.last())
    }
}

/// The number of bytes that a history of writes sent.
pub open spec fn sent_after(writes: Seq<nat>) -> nat
    decreases writes.len(),
{
    if writes.len() == 0 {
        0
    } else {
        sent_after(writes.drop_last()) + writes.last()
    }
}

/// Whether no write of a history took more than was pending.
pub open spec fn writes_fit(writes: Seq<nat>) -> bool
    decreases writes.len(),
{
    writes.len() > 0 ==> writes_fit(writes.drop_last()) && offset_after(writes.drop_last())
        + writes.last() <= BLOCK_LEN
}

/// However the socket splits the writes, the stream is the block over and
/// over: the byte that comes next is the one at the number of bytes sent,
/// counted round the block.
pub proof fn the_stream_repeats_the_block(writes: Seq<nat>)
    requires
        writes_fit(writes),
    ensures
        offset_after(writes) == sent_after(writes) % (BLOCK_LEN as nat),
        offset_after(writes) < BLOCK_LEN,
    decreases writes.len(),
{
    if writes.len() > 0 {
        the_stream_repeats_the_block(writes.drop_last());
    }
}

} // verus!
