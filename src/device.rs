//! The HID wire format: request frames, response reading and recognising a
//! lost device.
use vstd::prelude::*;
use vstd::string::StringSliceAdditionalSpecFns;
use crate::placeholders::occurs_at;
use crate::text::to_chars;

verus! {

/// HID vendor id of the UPS
pub const VENDOR_ID: u16 = 0x0665;
/// HID product id of the UPS
pub const PRODUCT_ID: u16 = 0x5161;
/// Size of one read from the device
pub const HID_READ_BUFFER_SIZE: usize = 128;
/// Read timeout, in milliseconds
pub const READ_TIMEOUT: i32 = 3000;
/// Report id that starts every frame
pub const REPORT_ID: u8 = 0;
/// Carriage return, which ends requests and responses
pub const CARRIAGE_RETURN: u8 = 13;

/// The frame written for a request: the report id, the request's bytes, a
/// carriage return
pub open spec fn frame_of(cmd: &str) -> Seq<u8> {
    seq![REPORT_ID] + cmd.spec_bytes() + seq![CARRIAGE_RETURN]
}

/// Builds the frame written for a request
pub fn frame_command(cmd: &str) -> (r: Vec<u8>)
    ensures
        r@ == frame_of(cmd),
{
    let bytes = cmd.as_bytes();
    let mut out: Vec<u8> = Vec::new();
    out.push(REPORT_ID);
    let mut i: usize = 0;
    while i < bytes.len()
        invariant
            i <= bytes@.len(),
            bytes@ == cmd.spec_bytes(),
            out@ == seq![REPORT_ID] + bytes@.take(i as int),
        decreases bytes.len() - i,
    {
        out.push(bytes[i]);
        i += 1;
        assert(out@ =~= seq![REPORT_ID] + bytes@.take(i as int));
    }
    out.push(CARRIAGE_RETURN);
    assert(bytes@.take(bytes@.len() as int) =~= bytes@);
    assert(out@ =~= frame_of(cmd));
    out
}

/// The characters of `b` before its first carriage return, a byte each
pub open spec fn until_cr(b: Seq<u8>) -> Seq<char>
    decreases b.len(),
{
    if b.len() == 0 || b[0] == CARRIAGE_RETURN {
        Seq::empty()
    } else {
        seq![b[0] as char] + until_cr(b.skip(1))
    }
}

/// Collects a response from successive reads
pub struct ResponseReader {
    pub text: Vec<char>,
    pub done: bool,
}

impl ResponseReader {
    pub fn new() -> (r: ResponseReader)
        ensures
            r.text@.len() == 0,
            !r.done,
    {
        ResponseReader { text: Vec::new(), done: false }
    }

    /// Takes the first `count` bytes of a read. The response is complete at
    /// a carriage return, or when a read returns nothing (it timed out).
    pub fn absorb(&mut self, chunk: &[u8], count: usize)
        requires
            !old(self).done,
            count <= chunk@.len(),
        ensures
            final(self).text@ == old(self).text@ + until_cr(chunk@.take(count as int)),
            final(self).done == (count == 0 || chunk@.take(count as int).contains(CARRIAGE_RETURN)),
    {
        if count == 0 {
            self.done = true;
            assert(chunk@.take(0) =~= Seq::<u8>::empty());
            assert(self.text@ =~= old(self).text@ + until_cr(chunk@.take(count as int)));
            return;
        }
        let ghost all = chunk@.take(count as int);
        let ghost start = self.text@;
        let mut i: usize = 0;
        assert(all.skip(0) =~= all);
        while i < count
            invariant
                i <= count <= chunk@.len(),
                start == old(self).text@,
                all == chunk@.take(count as int),
                forall|j: int| 0 <= j < i ==> chunk@[j] != CARRIAGE_RETURN,
                start + until_cr(all) == self.text@ + until_cr(all.skip(i as int)),
                !self.done,
            decreases count - i,
        {
            let b = chunk[i];
            let ghost rest = all.skip(i as int);
            assert(rest[0] == b);
            if b == CARRIAGE_RETURN {
                self.done = true;
                assert(all[i as int] == CARRIAGE_RETURN);
                assert(all.contains(CARRIAGE_RETURN));
                assert(until_cr(rest) =~= Seq::<char>::empty());
                assert(self.text@ + until_cr(rest) =~= self.text@);
                assert(self.text@ =~= start + until_cr(all));
                return;
            }
            let ghost before = self.text@;
            self.text.push(b as char);
            assert(rest.skip(1) =~= all.skip(i + 1));
            assert(until_cr(rest) == seq![b as char] + until_cr(rest.skip(1)));
            assert(self.text@ + until_cr(all.skip(i + 1)) =~= before + until_cr(rest));
            i += 1;
        }
        assert(all.skip(count as int) =~= Seq::<u8>::empty());
        assert(self.text@ + until_cr(all.skip(count as int)) =~= self.text@);
        assert(!all.contains(CARRIAGE_RETURN)) by {
            if all.contains(CARRIAGE_RETURN) {
                let k = choose|k: int| 0 <= k < all.len() && all[k] == CARRIAGE_RETURN;
                assert(chunk@[k] == CARRIAGE_RETURN);
            }
        }
    }
}

/// Whether `pat` occurs somewhere in `s`
pub open spec fn contains_text(s: Seq<char>, pat: Seq<char>) -> bool {
    exists|i: int| 0 <= i && i + pat.len() <= s.len() && #[trigger] s.subrange(i, i + pat.len()) == pat
}

/// Whether a device error message reports that the device is gone
pub fn is_disconnect_message(msg: &str) -> (r: bool)
    ensures
        r == contains_text(msg@, "The device is not connected"@),
{
    let text = to_chars(msg);
    let pat = to_chars("The device is not connected");
    proof {
        reveal_strlit("The device is not connected");
    }
    if pat.len() > text.len() {
        return false;
    }
    let last = text.len() - pat.len();
    let mut i: usize = 0;
    while i <= last
        invariant
            last == text.len() - pat.len(),
            pat@.len() > 0,
            text@ == msg@,
            pat@ == "The device is not connected"@,
            forall|j: int| 0 <= j < i && j + pat@.len() <= text@.len() ==> #[trigger] text@.subrange(j, j + pat@.len()) != pat@,
        decreases last + 1 - i,
    {
        if occurs_at(&text, i, &pat) {
            return true;
        }
        i += 1;
    }
    false
}

} // verus!
