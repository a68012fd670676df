//! Keyboard input: a polled scan-code port behind a narrow capability, the
//! static table mapping the sixteen logical keys to scan codes, and the
//! held-key test.

use vstd::prelude::*;

verus! {

/// The scan code reported for logical key `key` (0x0 through 0xF), or `None`
/// outside that range. Several distinct logical keys share one scan code
/// (0x6 and 0xD, 0x9 and 0xE, 0xB and 0xF): the table preserves the observed
/// legacy layout rather than guessing an intended one.
pub open spec fn scan_code_for(key: u8) -> Option<u8> {
    if key == 0x0 {
        Some(0x2du8)
    } else if key == 0x1 {
        Some(0x02u8)
    } else if key == 0x2 {
        Some(0x03u8)
    } else if key == 0x3 {
        Some(0x04u8)
    } else if key == 0x4 {
        Some(0x10u8)
    } else if key == 0x5 {
        Some(0x11u8)
    } else if key == 0x6 {
        Some(0x12u8)
    } else if key == 0x7 {
        Some(0x1eu8)
    } else if key == 0x8 {
        Some(0x1fu8)
    } else if key == 0x9 {
        Some(0x20u8)
    } else if key == 0xa {
        Some(0x2cu8)
    } else if key == 0xb {
        Some(0x2eu8)
    } else if key == 0xc {
        Some(0x05u8)
    } else if key == 0xd {
        Some(0x12u8)
    } else if key == 0xe {
        Some(0x20u8)
    } else if key == 0xf {
        Some(0x2eu8)
    } else {
        None
    }
}

/// The scan code mapped to logical key `key`, or `None` outside the table.
pub fn map_key(key: u8) -> (r: Option<u8>)
    ensures
        r == scan_code_for(key),
{
    match key {
        0x0 => Some(0x2d),
        0x1 => Some(0x02),
        0x2 => Some(0x03),
        0x3 => Some(0x04),
        0x4 => Some(0x10),
        0x5 => Some(0x11),
        0x6 => Some(0x12),
        0x7 => Some(0x1e),
        0x8 => Some(0x1f),
        0x9 => Some(0x20),
        0xa => Some(0x2c),
        0xb => Some(0x2e),
        0xc => Some(0x05),
        0xd => Some(0x12),
        0xe => Some(0x20),
        0xf => Some(0x2e),
        _ => None,
    }
}

/// Whether a polled code reports logical key `key` as held: the poll yielded
/// a code and it equals `key`'s mapped scan code exactly. No code, or a key
/// outside the table, reports not held.
pub open spec fn key_matches_spec(code: Option<u8>, key: u8) -> bool {
    match code {
        Some(c) => scan_code_for(key) == Some(c),
        None => false,
    }
}

/// Decide, from one polled code, whether logical key `key` is held.
pub fn key_matches(code: Option<u8>, key: u8) -> (r: bool)
    ensures
        r == key_matches_spec(code, key),
{
    match code {
        Some(c) => match map_key(key) {
            Some(m) => m == c,
            None => false,
        },
        None => false,
    }
}

/// The narrow boundary to the keyboard controller's data port: one
/// non-blocking read of whatever scan code is currently latched, with no
/// edge detection and no buffering. Reading may have platform side effects
/// (such as acknowledging a pending byte), so each logical query must read
/// at most once; nothing is assumed of the value read.
pub trait ScanPort: Sized {
    fn read_code(&mut self) -> Option<u8>;
}

/// Polls a scan-code port and tests logical keys against the static table.
/// Records, as ghost history, every code the port handed out, so contracts
/// can say how often the port was read and what each query saw.
pub struct Keyboard<P: ScanPort> {
    port: P,
    /// Every code the port handed out, oldest first.
    pub polled: Ghost<Seq<Option<u8>>>,
}

impl<P: ScanPort> Keyboard<P> {
    /// Every code the port handed out so far, oldest first.
    pub closed spec fn polled_codes(&self) -> Seq<Option<u8>> {
        self.polled@
    }

    pub fn new(port: P) -> (r: Self)
        ensures
            r.polled_codes() == Seq::<Option<u8>>::empty(),
    {
        Keyboard { port, polled: Ghost(Seq::empty()) }
    }

    /// One fresh, non-blocking read of the latest latched scan code.
    pub fn read(&mut self) -> (r: Option<u8>)
        ensures
            final(self).polled_codes() == old(self).polled_codes().push(r),
    {
        let code = self.port.read_code();
        self.polled = Ghost(self.polled@.push(code));
        code
    }

    /// Whether logical key `key` is currently held: polls the port exactly
    /// once and reports true iff the latched code equals `key`'s mapped scan
    /// code. A key outside the table's domain reports false rather than
    /// failing, whatever the port latched.
    pub fn is_down(&mut self, key: u8) -> (r: bool)
        ensures
            final(self).polled_codes() == old(self).polled_codes().push(
                final(self).polled_codes().last(),
            ),
            r == key_matches_spec(final(self).polled_codes().last(), key),
            key > 0xf ==> !r,
    {
        let code = self.read();
        key_matches(code, key)
    }
}

/// Law: when the port yields no code, no logical key reads as held.
pub proof fn lemma_no_code_no_key()
    ensures
        forall|key: u8| !key_matches_spec(None::<u8>, key),
{
}

/// Law: logical keys that share one scan code agree on every injected code;
/// the duplication in the table is documented, not hidden.
pub proof fn lemma_shared_scan_codes(code: Option<u8>)
    ensures
        key_matches_spec(code, 0x6) == key_matches_spec(code, 0xd),
        key_matches_spec(code, 0x9) == key_matches_spec(code, 0xe),
        key_matches_spec(code, 0xb) == key_matches_spec(code, 0xf),
{
}

} // verus!
