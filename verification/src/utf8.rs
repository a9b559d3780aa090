//! Telling, piece by piece, whether a stream of bytes is UTF-8.

use vstd::prelude::*;

verus! {

/// How many bytes the character takes that a byte begins; none where it begins none.
pub open spec fn announced(b: u8) -> nat {
    if b <= 0x7f {
        1
    } else if 0xc0 <= b <= 0xdf {
        2
    } else if 0xe0 <= b <= 0xef {
        3
    } else if 0xf0 <= b <= 0xf7 {
        4
    } else {
        0
    }
}

/// Whether bytes begin a character and end before it does.
pub open spec fn unfinished(b: Seq<u8>) -> bool {
    b.len() > 0 && b.len() < announced(b[0])
}

/// A stream that is UTF-8 stays so exactly where what follows is.
proof fn lemma_valid_front(front: Seq<u8>, rest: Seq<u8>)
    requires
        vstd::utf8::valid_utf8(front),
    ensures
        vstd::utf8::valid_utf8(front + rest) == vstd::utf8::valid_utf8(rest),
    decreases front.len(),
{
    if front.len() == 0 {
        assert(front + rest =~= rest);
    } else {
        let all = front + rest;
        let tail = vstd::utf8::pop_first_scalar(front);
        assert(vstd::utf8::valid_first_scalar(all));
        assert(vstd::utf8::pop_first_scalar(all) =~= tail + rest);
        assert(tail.len() < front.len());
        lemma_valid_front(tail, rest);
    }
}

/// Whether the first character of bytes is whole and wrong, or none begins there.
pub open spec fn broken(b: Seq<u8>) -> bool {
    b.len() > 0 && b.len() >= announced(b[0]) && !vstd::utf8::valid_first_scalar(b)
}

proof fn lemma_broken(front: Seq<u8>, b: Seq<u8>, more: Seq<u8>)
    requires
        vstd::utf8::valid_utf8(front),
        broken(b),
    ensures
        !vstd::utf8::valid_utf8(front + b + more),
{
    assert(front + b + more =~= front + (b + more));
    lemma_valid_front(front, b + more);
    let c = b + more;
    assert(c[0] == b[0]);
    if announced(b[0]) >= 2 {
        assert(c[1] == b[1]);
    }
    if announced(b[0]) >= 3 {
        assert(c[2] == b[2]);
    }
    if announced(b[0]) >= 4 {
        assert(c[3] == b[3]);
    }
    assert(!vstd::utf8::valid_first_scalar(c));
}

/// The number of bytes that the first character takes, where it is whole and right.
fn first_scalar(b: &Vec<u8>, at: usize) -> (r: Option<usize>)
    requires
        at < b.len(),
        announced(b@[at as int]) <= b.len() - at,
    ensures
        r is Some <==> vstd::utf8::valid_first_scalar(b@.skip(at as int)),
        r matches Some(n) ==> n == vstd::utf8::length_of_first_scalar(b@.skip(at as int)) && 0 < n
            <= b.len() - at,
{
    let ghost s = b@.skip(at as int);
    assert(s[0] == b@[at as int]);
    let b0: u8 = b[at];
    if b0 <= 0x7f {
        assert((b0 & 0x7f) as u32 <= 0x7f) by (bit_vector);
        return Some(1);
    }
    if 0xc0 <= b0 && b0 <= 0xdf {
        assert(s[1] == b@[at + 1]);
        let b1: u8 = b[at + 1];
        if b1 < 0x80 || b1 > 0xbf {
            return None;
        }
        let c: u32 = (((b0 & 0x1F) as u32) << 6) | ((b1 & 0x3f) as u32);
        assert(c == vstd::utf8::codepoint_width_2(b0, b1));
        assert((((b0 & 0x1F) as u32) << 6) | ((b1 & 0x3f) as u32) < 0x800) by (bit_vector);
        if c < 0x80 {
            return None;
        }
        return Some(2);
    }
    if 0xe0 <= b0 && b0 <= 0xef {
        assert(s[1] == b@[at + 1]);
        assert(s[2] == b@[at + 2]);
        let b1: u8 = b[at + 1];
        let b2: u8 = b[at + 2];
        if b1 < 0x80 || b1 > 0xbf || b2 < 0x80 || b2 > 0xbf {
            return None;
        }
        let c: u32 = (((b0 & 0x0F) as u32) << 12) | (((b1 & 0x3f) as u32) << 6) | ((b2
            & 0x3f) as u32);
        assert(c == vstd::utf8::codepoint_width_3(b0, b1, b2));
        if c < 0x800 || (0xD800 <= c && c <= 0xDFFF) {
            return None;
        }
        return Some(3);
    }
    if 0xf0 <= b0 && b0 <= 0xf7 {
        assert(s[1] == b@[at + 1]);
        assert(s[2] == b@[at + 2]);
        assert(s[3] == b@[at + 3]);
        let b1: u8 = b[at + 1];
        let b2: u8 = b[at + 2];
        let b3: u8 = b[at + 3];
        if b1 < 0x80 || b1 > 0xbf || b2 < 0x80 || b2 > 0xbf || b3 < 0x80 || b3 > 0xbf {
            return None;
        }
        let c: u32 = (((b0 & 0x07) as u32) << 18) | (((b1 & 0x3f) as u32) << 12) | (((b2
            & 0x3f) as u32) << 6) | ((b3 & 0x3f) as u32);
        assert(c == vstd::utf8::codepoint_width_4(b0, b1, b2, b3));
        if c < 0x10000 || c > 0x10ffff {
            return None;
        }
        return Some(4);
    }
    None
}

fn announced_len(b: u8) -> (r: usize)
    ensures
        r == announced(b),
{
    if b <= 0x7f {
        1
    } else if 0xc0 <= b && b <= 0xdf {
        2
    } else if 0xe0 <= b && b <= 0xef {
        3
    } else if 0xf0 <= b && b <= 0xf7 {
        4
    } else {
        0
    }
}

/// Tells whether a stream of bytes that comes in pieces is UTF-8.
pub struct Utf8Validator {
    /// The bytes of a character that has not come whole.
    pending: Vec<u8>,
    /// Whether the stream can no longer be UTF-8.
    invalid: bool,
    /// The stream so far.
    seen: Ghost<Seq<u8>>,
}

impl View for Utf8Validator {
    type V = Seq<u8>;

    closed spec fn view(&self) -> Seq<u8> {
        self.seen@
    }
}

impl Utf8Validator {
    /// What the fields say of the stream so far.
    pub closed spec fn wf(&self) -> bool {
        if self.invalid {
            forall|more: Seq<u8>| !#[trigger] vstd::utf8::valid_utf8(self.seen@ + more)
        } else {
            &&& self.pending@.len() <= self.seen@.len()
            &&& self.pending@ == self.seen@.skip(self.seen@.len() - self.pending@.len())
            &&& vstd::utf8::valid_utf8(self.seen@.take(self.seen@.len() - self.pending@.len()))
            &&& self.pending@.len() > 0 ==> unfinished(self.pending@)
        }
    }

    /// Takes the next piece of the stream.
    pub fn push(&mut self, chunk: &[u8])
        requires
            old(self).wf(),
        ensures
            final(self).wf(),
            final(self)@ == old(self)@ + chunk@,
    {
        let ghost before = self.seen@;
        let ghost all = before + chunk@;
        self.seen = Ghost(all);
        if self.invalid {
            proof {
                assert forall|more: Seq<u8>| !#[trigger] vstd::utf8::valid_utf8(all + more) by {
                    assert(all + more =~= before + (chunk@ + more));
                }
            }
            return ;
        }
        let ghost good = before.take(before.len() - self.pending@.len());
        let mut bytes: Vec<u8> = Vec::new();
        bytes.append(&mut self.pending);
        let ghost held = bytes@;
        bytes.extend_from_slice(chunk);
        self.pending = Vec::new();
        assert(bytes@ =~= held + chunk@);
        assert(all =~= good + bytes@);
        let mut at: usize = 0;
        assert(good + bytes@.take(0) =~= good);
        while at < bytes.len()
            invariant
                at <= bytes.len(),
                !self.invalid,
                self.pending@.len() == 0,
                self.seen@ == all,
                all == old(self)@ + chunk@,
                all == good + bytes@,
                vstd::utf8::valid_utf8(good + bytes@.take(at as int)),
            decreases bytes.len() - at,
        {
            let ghost rest = bytes@.skip(at as int);
            let ghost front = good + bytes@.take(at as int);
            assert(rest[0] == bytes@[at as int]);
            assert(all =~= front + rest);
            let left: usize = bytes.len() - at;
            if announced_len(bytes[at]) > left {
                self.pending = tail_of(&bytes, at);
                assert(all.skip(all.len() - rest.len()) =~= rest);
                assert(all.take(all.len() - rest.len()) =~= front);
                return ;
            }
            match first_scalar(&bytes, at) {
                Some(n) => {
                    proof {
                        let one = rest.take(n as int);
                        assert(vstd::utf8::valid_utf8(one)) by {
                            reveal_with_fuel(vstd::utf8::valid_utf8, 2);
                            assert(one[0] == rest[0]);
                            if n >= 2 {
                                assert(one[1] == rest[1]);
                            }
                            if n >= 3 {
                                assert(one[2] == rest[2]);
                            }
                            if n >= 4 {
                                assert(one[3] == rest[3]);
                            }
                            assert(vstd::utf8::pop_first_scalar(one).len() == 0);
                        }
                        lemma_valid_front(front, one);
                        assert(good + bytes@.take(at + n) =~= front + one);
                    }
                    at = at + n;
                },
                None => {
                    self.invalid = true;
                    proof {
                        assert forall|more: Seq<u8>| !#[trigger] vstd::utf8::valid_utf8(
                            all + more,
                        ) by {
                            lemma_broken(front, rest, more);
                        }
                    }
                    return ;
                },
            }
        }
        assert(bytes@.take(at as int) =~= bytes@);
        assert(all.take(all.len() as int) =~= all);
        assert(self.pending@ =~= all.skip(all.len() as int));
    }

    /// Whether the stream, which has ended, is UTF-8.
    pub fn finish(self) -> (r: bool)
        requires
            self.wf(),
        ensures
            r == vstd::utf8::valid_utf8(self@),
    {
        proof {
            let s = self.seen@;
            if self.invalid {
                assert(s + Seq::<u8>::empty() =~= s);
                assert(!vstd::utf8::valid_utf8(s + Seq::<u8>::empty()));
            } else {
                let k = s.len() - self.pending@.len();
                assert(s =~= s.take(k) + self.pending@);
                lemma_valid_front(s.take(k), self.pending@);
            }
        }
        !self.invalid && self.pending.len() == 0
    }
}

fn tail_of(b: &Vec<u8>, at: usize) -> (r: Vec<u8>)
    requires
        at <= b.len(),
    ensures
        r@ == b@.skip(at as int),
{
    let mut r: Vec<u8> = Vec::new();
    let mut i: usize = at;
    while i < b.len()
        invariant
            at <= i <= b.len(),
            r@ == b@.subrange(at as int, i as int),
        decreases b.len() - i,
    {
        r.push(b[i]);
        i += 1;
        assert(r@ =~= b@.subrange(at as int, i as int));
    }
    assert(r@ =~= b@.skip(at as int));
    r
}

impl Default for Utf8Validator {
    fn default() -> (r: Self)
        ensures
            r.wf(),
            r@ == Seq::<u8>::empty(),
    {
        let r = Utf8Validator { pending: Vec::new(), invalid: false, seen: Ghost(Seq::empty()) };
        assert(r.seen@.take(0) =~= Seq::<u8>::empty());
        assert(r.seen@.skip(0) =~= r.pending@);
        r
    }
}

} // verus!
