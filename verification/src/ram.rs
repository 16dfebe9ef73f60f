//! Guest physical memory: a fixed-size, zero-initialized byte region owned by
//! a backend, with word-level access, image loading, the framebuffer window,
//! and the single-slot keyboard mailbox protocol.

use vstd::prelude::*;

use crate::abi::{
    CODE_REGION_SIZE, DISK_ADDR, FB_ADDR, KEYBOARD_DATA, KEYBOARD_STATUS, RAM_SIZE, SCREEN_HEIGHT,
    SCREEN_WIDTH,
};

verus! {

/// The little-endian 32-bit word stored at byte offset `a`.
pub open spec fn word_at(s: Seq<u8>, a: int) -> u32 {
    (s[a] as u32) | ((s[a + 1] as u32) << 8) | ((s[a + 2] as u32) << 16) | ((s[a + 3] as u32)
        << 24)
}

/// `s` with the little-endian 32-bit word `v` stored at byte offset `a`.
pub open spec fn put_word(s: Seq<u8>, a: int, v: u32) -> Seq<u8> {
    s.update(a, (v & 0xff) as u8).update(a + 1, ((v >> 8) & 0xff) as u8).update(
        a + 2,
        ((v >> 16) & 0xff) as u8,
    ).update(a + 3, ((v >> 24) & 0xff) as u8)
}

/// The little-endian 64-bit word stored at byte offset `a`.
pub open spec fn qword_at(s: Seq<u8>, a: int) -> u64 {
    (word_at(s, a) as u64) | ((word_at(s, a + 4) as u64) << 32)
}

/// `s` with the little-endian 64-bit word `v` stored at byte offset `a`.
pub open spec fn put_qword(s: Seq<u8>, a: int, v: u64) -> Seq<u8> {
    put_word(put_word(s, a, v as u32), a + 4, (v >> 32) as u32)
}

/// The keyboard mailbox status word: 1 means a key is pending.
pub open spec fn mailbox_status(s: Seq<u8>) -> u32 {
    word_at(s, KEYBOARD_STATUS as int)
}

/// The keyboard mailbox data word: the pending key's character code.
pub open spec fn mailbox_data(s: Seq<u8>) -> u32 {
    word_at(s, KEYBOARD_DATA as int)
}

/// The mailbox after a host-side key injection: the key is stored and the
/// status raised only when the guest has consumed the previous key
/// (status 0); a pending key is never overwritten.
pub open spec fn inject_spec(s: Seq<u8>, c: char) -> Seq<u8> {
    if mailbox_status(s) == 0 {
        put_word(put_word(s, KEYBOARD_DATA as int, c as u32), KEYBOARD_STATUS as int, 1)
    } else {
        s
    }
}

/// The pixel word at framebuffer index `i`.
pub open spec fn fb_word(s: Seq<u8>, i: int) -> u32 {
    word_at(s, FB_ADDR + 4 * i)
}

/// A 0x00RRGGBB pixel value.
pub open spec fn rgb(r: u8, g: u8, b: u8) -> u32 {
    ((r as u32) << 16) | ((g as u32) << 8) | (b as u32)
}

/// Guest physical RAM: a host-allocated, fixed-size, zeroed byte buffer.
pub struct GuestRam {
    bytes: Vec<u8>,
}

impl GuestRam {
    /// The byte contents of guest RAM.
    pub closed spec fn view(&self) -> Seq<u8> {
        self.bytes@
    }

    /// The region always spans exactly `RAM_SIZE` bytes.
    pub open spec fn wf(&self) -> bool {
        self@.len() == RAM_SIZE
    }

    /// Allocates the region, zeroed.
    pub fn new() -> (r: GuestRam)
        ensures
            r.wf(),
            forall|i: int| 0 <= i < RAM_SIZE ==> r@[i] == 0u8,
    {
        let mut bytes: Vec<u8> = Vec::new();
        let mut i: usize = 0;
        while i < RAM_SIZE
            invariant
                i <= RAM_SIZE,
                bytes@.len() == i,
                forall|j: int| 0 <= j < i ==> bytes@[j] == 0u8,
            decreases RAM_SIZE - i,
        {
            bytes.push(0u8);
            i = i + 1;
        }
        GuestRam { bytes }
    }

    /// Copies the guest image to guest physical address 0. The image must fit
    /// in the reserved code region below the first MMIO window.
    pub fn load_image(&mut self, image: &[u8])
        requires
            old(self).wf(),
            image@.len() <= CODE_REGION_SIZE,
        ensures
            final(self).wf(),
            forall|i: int| 0 <= i < image@.len() ==> final(self)@[i] == image@[i],
            forall|i: int| image@.len() <= i < RAM_SIZE ==> final(self)@[i] == old(self)@[i],
    {
        let mut i: usize = 0;
        while i < image.len()
            invariant
                i <= image@.len(),
                image@.len() <= CODE_REGION_SIZE,
                self@.len() == RAM_SIZE,
                forall|j: int| 0 <= j < i ==> self@[j] == image@[j],
                forall|j: int| i <= j < RAM_SIZE ==> self@[j] == old(self)@[j],
            decreases image@.len() - i,
        {
            let b = image[i];
            self.bytes.set(i, b);
            i = i + 1;
        }
    }

    /// Copies a disk image to `DISK_ADDR`, if it fits in the remaining RAM;
    /// returns whether it was loaded. Absence of a disk image is non-fatal:
    /// the guest then sees a zeroed region.
    pub fn load_disk(&mut self, disk: &[u8]) -> (loaded: bool)
        requires
            old(self).wf(),
        ensures
            final(self).wf(),
            loaded == (disk@.len() <= RAM_SIZE - DISK_ADDR),
            loaded ==> forall|i: int|
                0 <= i < disk@.len() ==> final(self)@[DISK_ADDR + i] == disk@[i],
            loaded ==> forall|i: int|
                (0 <= i < DISK_ADDR || DISK_ADDR + disk@.len() <= i < RAM_SIZE) ==> final(self)@[i]
                    == old(self)@[i],
            !loaded ==> final(self)@ == old(self)@,
    {
        if disk.len() > RAM_SIZE - DISK_ADDR {
            return false;
        }
        let mut i: usize = 0;
        while i < disk.len()
            invariant
                i <= disk@.len(),
                disk@.len() <= RAM_SIZE - DISK_ADDR,
                self@.len() == RAM_SIZE,
                forall|j: int| 0 <= j < i ==> self@[DISK_ADDR + j] == disk@[j],
                forall|j: int|
                    (0 <= j < DISK_ADDR || DISK_ADDR + i <= j < RAM_SIZE) ==> self@[j] == old(
                        self,
                    )@[j],
            decreases disk@.len() - i,
        {
            let b = disk[i];
            self.bytes.set(DISK_ADDR + i, b);
            i = i + 1;
        }
        true
    }

    /// Reads the little-endian 32-bit word at byte offset `addr`.
    pub fn read_u32(&self, addr: usize) -> (r: u32)
        requires
            self.wf(),
            addr + 4 <= RAM_SIZE,
        ensures
            r == word_at(self@, addr as int),
    {
        let b0 = self.bytes[addr] as u32;
        let b1 = self.bytes[addr + 1] as u32;
        let b2 = self.bytes[addr + 2] as u32;
        let b3 = self.bytes[addr + 3] as u32;
        b0 | (b1 << 8) | (b2 << 16) | (b3 << 24)
    }

    /// Writes the little-endian 32-bit word `v` at byte offset `addr`.
    pub fn write_u32(&mut self, addr: usize, v: u32)
        requires
            old(self).wf(),
            addr + 4 <= RAM_SIZE,
        ensures
            final(self).wf(),
            final(self)@ == put_word(old(self)@, addr as int, v),
    {
        self.bytes.set(addr, (v & 0xff) as u8);
        self.bytes.set(addr + 1, ((v >> 8) & 0xff) as u8);
        self.bytes.set(addr + 2, ((v >> 16) & 0xff) as u8);
        self.bytes.set(addr + 3, ((v >> 24) & 0xff) as u8);
    }

    /// Reads the little-endian 64-bit word at byte offset `addr`.
    pub fn read_u64(&self, addr: usize) -> (r: u64)
        requires
            self.wf(),
            addr + 8 <= RAM_SIZE,
        ensures
            r == qword_at(self@, addr as int),
    {
        let lo = self.read_u32(addr) as u64;
        let hi = self.read_u32(addr + 4) as u64;
        lo | (hi << 32)
    }

    /// Writes the little-endian 64-bit word `v` at byte offset `addr`.
    pub fn write_u64(&mut self, addr: usize, v: u64)
        requires
            old(self).wf(),
            addr + 8 <= RAM_SIZE,
        ensures
            final(self).wf(),
            final(self)@ == put_qword(old(self)@, addr as int, v),
    {
        self.write_u32(addr, v as u32);
        self.write_u32(addr + 4, (v >> 32) as u32);
    }

    /// Copies `len` bytes starting at `addr` out of guest RAM.
    pub fn read_bytes(&self, addr: usize, len: usize) -> (r: Vec<u8>)
        requires
            self.wf(),
            addr + len <= RAM_SIZE,
        ensures
            r@ == self@.subrange(addr as int, addr + len),
    {
        let mut r: Vec<u8> = Vec::new();
        let mut i: usize = 0;
        while i < len
            invariant
                i <= len,
                addr + len <= RAM_SIZE,
                self@.len() == RAM_SIZE,
                r@ == self@.subrange(addr as int, addr + i),
            decreases len - i,
        {
            r.push(self.bytes[addr + i]);
            proof {
                assert(r@ =~= self@.subrange(addr as int, addr + i + 1));
            }
            i = i + 1;
        }
        r
    }

    /// A host-side copy of the `width * height` framebuffer pixels starting
    /// at `FB_ADDR`. The underlying region is written by the running guest,
    /// so a copy taken while the guest runs may mix two frames; that is
    /// accepted for pixels.
    pub fn get_framebuffer(&self, width: usize, height: usize) -> (r: Vec<u32>)
        requires
            self.wf(),
            FB_ADDR + 4 * (width * height) <= RAM_SIZE,
        ensures
            r@.len() == width * height,
            forall|i: int|
                0 <= i < width * height ==> r@[i] == word_at(self@, FB_ADDR + 4 * i),
    {
        let n = width * height;
        let mut r: Vec<u32> = Vec::new();
        let mut i: usize = 0;
        while i < n
            invariant
                i <= n,
                n == width * height,
                FB_ADDR + 4 * n <= RAM_SIZE,
                self@.len() == RAM_SIZE,
                r@.len() == i,
                forall|j: int| 0 <= j < i ==> r@[j] == word_at(self@, FB_ADDR + 4 * j),
            decreases n - i,
        {
            r.push(self.read_u32(FB_ADDR + 4 * i));
            i = i + 1;
        }
        r
    }

    /// Host-side key injection into the single-slot keyboard mailbox. The
    /// key is delivered only if the guest has consumed the previous one
    /// (status word 0); otherwise it is silently dropped. A pending key is
    /// never overwritten.
    pub fn inject_key(&mut self, c: char)
        requires
            old(self).wf(),
        ensures
            final(self).wf(),
            final(self)@ == inject_spec(old(self)@, c),
            mailbox_status(old(self)@) != 0 ==> final(self)@ == old(self)@,
    {
        if self.read_u32(KEYBOARD_STATUS) == 0 {
            self.write_u32(KEYBOARD_DATA, c as u32);
            self.write_u32(KEYBOARD_STATUS, 1);
        }
    }

    /// Guest-side poll of the keyboard mailbox: if a key is pending, returns
    /// it and clears the status word, acknowledging the slot for the next
    /// injection.
    pub fn consume_key(&mut self) -> (r: Option<char>)
        requires
            old(self).wf(),
        ensures
            final(self).wf(),
            mailbox_status(old(self)@) == 1 ==> {
                &&& r == Some((mailbox_data(old(self)@) as u8) as char)
                &&& final(self)@ == put_word(old(self)@, KEYBOARD_STATUS as int, 0)
            },
            mailbox_status(old(self)@) != 1 ==> r == None::<char> && final(self)@ == old(self)@,
    {
        if self.read_u32(KEYBOARD_STATUS) == 1 {
            let data = self.read_u32(KEYBOARD_DATA);
            self.write_u32(KEYBOARD_STATUS, 0);
            Some((data as u8) as char)
        } else {
            None
        }
    }

    /// Writes one framebuffer pixel; coordinates off the screen are ignored.
    pub fn draw_pixel(&mut self, x: usize, y: usize, r: u8, g: u8, b: u8)
        requires
            old(self).wf(),
        ensures
            final(self).wf(),
            x < SCREEN_WIDTH && y < SCREEN_HEIGHT ==> final(self)@ == put_word(
                old(self)@,
                FB_ADDR + 4 * (y * SCREEN_WIDTH + x),
                rgb(r, g, b),
            ),
            !(x < SCREEN_WIDTH && y < SCREEN_HEIGHT) ==> final(self)@ == old(self)@,
    {
        if x >= SCREEN_WIDTH || y >= SCREEN_HEIGHT {
            return ;
        }
        let color = ((r as u32) << 16) | ((g as u32) << 8) | (b as u32);
        self.write_u32(FB_ADDR + 4 * (y * SCREEN_WIDTH + x), color);
    }

    /// Fills the whole screen with one color.
    pub fn fill_screen(&mut self, r: u8, g: u8, b: u8)
        requires
            old(self).wf(),
        ensures
            final(self).wf(),
            forall|i: int|
                0 <= i < SCREEN_WIDTH * SCREEN_HEIGHT ==> fb_word(final(self)@, i) == rgb(r, g, b),
            forall|j: int|
                (0 <= j < FB_ADDR || FB_ADDR + 4 * (SCREEN_WIDTH * SCREEN_HEIGHT) <= j < RAM_SIZE)
                    ==> final(self)@[j] == old(self)@[j],
    {
        let n = SCREEN_WIDTH * SCREEN_HEIGHT;
        let color = ((r as u32) << 16) | ((g as u32) << 8) | (b as u32);
        let mut i: usize = 0;
        while i < n
            invariant
                i <= n,
                n == SCREEN_WIDTH * SCREEN_HEIGHT,
                color == rgb(r, g, b),
                self@.len() == RAM_SIZE,
                forall|k: int| 0 <= k < i ==> fb_word(self@, k) == rgb(r, g, b),
                forall|j: int|
                    (0 <= j < FB_ADDR || FB_ADDR + 4 * i <= j < RAM_SIZE) ==> self@[j] == old(
                        self,
                    )@[j],
            decreases n - i,
        {
            let ghost prev = self@;
            self.write_u32(FB_ADDR + 4 * i, color);
            proof {
                lemma_word_roundtrip(prev, FB_ADDR + 4 * i as int, color);
                assert forall|k: int| 0 <= k < i + 1 implies fb_word(self@, k) == rgb(
                    r,
                    g,
                    b,
                ) by {
                    if k < i {
                        assert(self@[FB_ADDR + 4 * k] == prev[FB_ADDR + 4 * k]);
                        assert(self@[FB_ADDR + 4 * k + 1] == prev[FB_ADDR + 4 * k + 1]);
                        assert(self@[FB_ADDR + 4 * k + 2] == prev[FB_ADDR + 4 * k + 2]);
                        assert(self@[FB_ADDR + 4 * k + 3] == prev[FB_ADDR + 4 * k + 3]);
                        assert(fb_word(prev, k) == rgb(r, g, b));
                    }
                }
            }
            i = i + 1;
        }
    }
}

/// A host-side copy of a `width * height` framebuffer window, for callers
/// that cannot promise the size fits: an oversized request yields an empty
/// copy instead.
pub fn framebuffer_copy(ram: &GuestRam, width: usize, height: usize) -> (r: Vec<u32>)
    requires
        ram.wf(),
    ensures
        4 * (width * height) <= RAM_SIZE - FB_ADDR ==> r@.len() == width * height && forall|
            i: int,
        |
            0 <= i < width * height ==> r@[i] == fb_word(ram@, i),
        4 * (width * height) > RAM_SIZE - FB_ADDR ==> r@.len() == 0,
{
    let budget = (RAM_SIZE - FB_ADDR) / 4;
    if width == 0 || height == 0 {
        return ram.get_framebuffer(width, height);
    }
    if width > budget || height > budget / width {
        proof {
            assert(width * height > budget) by (nonlinear_arith)
                requires
                    width > budget || height > budget / width,
                    width >= 1,
                    height >= 1,
                    budget == (RAM_SIZE - FB_ADDR) / 4,
            ;
        }
        return Vec::new();
    }
    proof {
        assert(width * height <= budget) by (nonlinear_arith)
            requires
                width <= budget,
                height <= budget / width,
                width >= 1,
                budget == (RAM_SIZE - FB_ADDR) / 4,
        ;
    }
    ram.get_framebuffer(width, height)
}

/// A word depends only on its own four bytes: sequences that agree there
/// hold the same word.
pub proof fn lemma_word_at_frame(s1: Seq<u8>, s2: Seq<u8>, a: int)
    requires
        forall|j: int| a <= j < a + 4 ==> s1[j] == s2[j],
    ensures
        word_at(s1, a) == word_at(s2, a),
{
}

/// A quadword depends only on its own eight bytes.
pub proof fn lemma_qword_at_frame(s1: Seq<u8>, s2: Seq<u8>, a: int)
    requires
        forall|j: int| a <= j < a + 8 ==> s1[j] == s2[j],
    ensures
        qword_at(s1, a) == qword_at(s2, a),
{
    lemma_word_at_frame(s1, s2, a);
    lemma_word_at_frame(s1, s2, a + 4);
}

/// Storing a quadword touches no byte outside its own eight.
pub proof fn lemma_put_qword_preserves(s: Seq<u8>, a: int, v: u64, j: int)
    requires
        0 <= j < s.len(),
        !(a <= j < a + 8),
        0 <= a,
        a + 8 <= s.len(),
    ensures
        put_qword(s, a, v)[j] == s[j],
{
}

/// Storing a word and reading it back at the same offset yields the word.
pub proof fn lemma_word_roundtrip(s: Seq<u8>, a: int, v: u32)
    requires
        0 <= a,
        a + 4 <= s.len(),
    ensures
        word_at(put_word(s, a, v), a) == v,
{
    assert(((v & 0xff) as u8 as u32) | ((((v >> 8) & 0xff) as u8 as u32) << 8) | ((((v >> 16)
        & 0xff) as u8 as u32) << 16) | ((((v >> 24) & 0xff) as u8 as u32) << 24) == v)
        by (bit_vector);
}

/// A pending key is never overwritten: injecting into a full slot changes
/// nothing, so of two rapid injections with no guest consumption in
/// between, only the first key is ever visible in the data register.
pub proof fn lemma_pending_key_never_overwritten(s: Seq<u8>, a: char, b: char)
    requires
        s.len() == RAM_SIZE,
    ensures
        mailbox_status(inject_spec(s, a)) != 0 ==> inject_spec(inject_spec(s, a), b)
            == inject_spec(s, a),
        mailbox_status(s) == 0 ==> mailbox_data(inject_spec(inject_spec(s, a), b)) == a as u32,
        mailbox_status(s) == 0 ==> mailbox_status(inject_spec(s, a)) == 1,
{
    if mailbox_status(s) == 0 {
        let with_data = put_word(s, KEYBOARD_DATA as int, a as u32);
        let delivered = put_word(with_data, KEYBOARD_STATUS as int, 1);
        lemma_word_roundtrip(with_data, KEYBOARD_STATUS as int, 1);
        assert(mailbox_status(delivered) == 1);
        lemma_word_roundtrip(s, KEYBOARD_DATA as int, a as u32);
        assert forall|j: int|
            KEYBOARD_DATA <= j < KEYBOARD_DATA + 4 implies delivered[j] == with_data[j] by {}
        lemma_word_at_frame(delivered, with_data, KEYBOARD_DATA as int);
        assert(mailbox_data(delivered) == a as u32);
    }
}

/// Storing a quadword and reading it back at the same offset yields it.
pub proof fn lemma_qword_roundtrip(s: Seq<u8>, a: int, v: u64)
    requires
        0 <= a,
        a + 8 <= s.len(),
    ensures
        qword_at(put_qword(s, a, v), a) == v,
{
    let s1 = put_word(s, a, v as u32);
    lemma_word_roundtrip(s, a, v as u32);
    lemma_word_roundtrip(s1, a + 4, (v >> 32) as u32);
    lemma_word_at_frame(put_word(s1, a + 4, (v >> 32) as u32), s1, a);
    assert(((v as u32) as u64) | ((((v >> 32) as u32) as u64) << 32) == v) by (bit_vector);
}

} // verus!
