//! DMX512 fixtures: addresses, channel values, and fixtures that write
//! their channels into a universe.

use vstd::prelude::*;

use crate::payload::zeros;

verus! {

/// `u` with the bytes from `at` on replaced by `b`.
pub open spec fn overwrite(u: Seq<u8>, at: int, b: Seq<u8>) -> Seq<u8> {
    u.take(at) + b + u.skip(at + b.len())
}

/// A DMX512 channel address, `1..=512`.
#[derive(Debug, Clone, Copy, PartialEq, Eq)]
pub struct DmxAddress(u16);

impl View for DmxAddress {
    type V = int;

    /// The channel number.
    closed spec fn view(&self) -> int {
        self.0 as int
    }
}

impl DmxAddress {
    #[verifier::type_invariant]
    spec fn in_range(self) -> bool {
        1 <= self.0 <= 512
    }

    /// The address of `channel`, if it is within `1..=512`.
    pub fn new(channel: u16) -> (r: Option<Self>)
        ensures
            r is Some <==> 1 <= channel <= 512,
            r matches Some(a) ==> a@ == channel,
    {
        if 1 <= channel && channel <= 512 {
            Some(Self(channel))
        } else {
            None
        }
    }

    /// Zero-based index of this channel within a universe.
    pub fn index(self) -> (i: usize)
        ensures
            i == self@ - 1,
            i < 512,
    {
        proof {
            use_type_invariant(&self);
        }
        self.0 as usize - 1
    }
}

/// A value that occupies `CHANNELS` consecutive DMX channels.
pub trait DmxValue: Copy + Default {
    /// Number of channels (bytes) a value occupies.
    const CHANNELS: usize;

    /// The channel bytes of this value, in the order they are written.
    spec fn spec_channel_bytes(self) -> Seq<u8>;

    /// The value with every channel off.
    fn zero() -> (r: Self)
        ensures
            r.spec_channel_bytes() == zeros(Self::CHANNELS as nat),
    ;

    /// Every value has `CHANNELS` bytes, and a value is at most a few channels wide.
    proof fn lemma_channel_bytes_len(self)
        ensures
            self.spec_channel_bytes().len() == Self::CHANNELS,
            1 <= Self::CHANNELS <= 4,
    ;

    /// Writes this value's channels into `dst` starting at `at`.
    fn write_to(self, dst: &mut [u8], at: usize)
        requires
            at + Self::CHANNELS <= old(dst)@.len(),
        ensures
            final(dst)@ == overwrite(old(dst)@, at as int, self.spec_channel_bytes()),
    ;
}

impl DmxValue for u8 {
    const CHANNELS: usize = 1;

    open spec fn spec_channel_bytes(self) -> Seq<u8> {
        seq![self]
    }

    fn zero() -> (r: Self) {
        let r: u8 = 0;
        assert(r.spec_channel_bytes() =~= zeros(1));
        r
    }

    proof fn lemma_channel_bytes_len(self) {
    }

    fn write_to(self, dst: &mut [u8], at: usize) {
        dst[at] = self;
        assert(dst@ =~= overwrite(old(dst)@, at as int, self.spec_channel_bytes()));
    }
}

/// 16-bit values are written big endian: most significant byte first.
impl DmxValue for u16 {
    const CHANNELS: usize = 2;

    open spec fn spec_channel_bytes(self) -> Seq<u8> {
        seq![(self / 256) as u8, (self % 256) as u8]
    }

    fn zero() -> (r: Self) {
        let r: u16 = 0;
        assert(r.spec_channel_bytes() =~= zeros(2));
        r
    }

    proof fn lemma_channel_bytes_len(self) {
    }

    fn write_to(self, dst: &mut [u8], at: usize) {
        dst[at] = (self / 256) as u8;
        dst[at + 1] = (self % 256) as u8;
        assert(dst@ =~= overwrite(old(dst)@, at as int, self.spec_channel_bytes()));
    }
}

/// A fixture occupying consecutive channels of a DMX universe.
pub trait Fixture {
    /// The fixture's channels lie within the universe.
    spec fn wf(&self) -> bool;

    /// Zero-based index of the fixture's first channel.
    spec fn spec_start(&self) -> int;

    /// The bytes of all of the fixture's channels, in order.
    spec fn spec_channel_bytes(&self) -> Seq<u8>;

    /// The universe `u` after this fixture has written its channels into it.
    open spec fn spec_write(&self, u: Seq<u8>) -> Seq<u8> {
        overwrite(u, self.spec_start(), self.spec_channel_bytes())
    }

    /// A well-formed fixture's channels fit within the universe.
    proof fn lemma_wf_fits(&self)
        requires
            self.wf(),
        ensures
            0 <= self.spec_start(),
            self.spec_start() + self.spec_channel_bytes().len() <= 512,
    ;

    /// Number of channels the fixture occupies.
    fn channels(&self) -> (n: usize)
        ensures
            n == self.spec_channel_bytes().len(),
    ;

    /// The fixture's first channel.
    fn address(&self) -> (a: DmxAddress)
        ensures
            a@ - 1 == self.spec_start(),
    ;

    /// Writes the fixture's channels into `buf`.
    fn write_to_universe(&self, buf: &mut [u8; 512])
        requires
            self.wf(),
        ensures
            final(buf)@ == self.spec_write(old(buf)@),
    ;
}

/// An RGB fixture: three values, red, green and blue, on consecutive channels.
#[derive(Debug)]
pub struct RgbFixture<T: DmxValue> {
    address: DmxAddress,
    pub r: T,
    pub g: T,
    pub b: T,
}

impl<T: DmxValue> RgbFixture<T> {
    /// The fixture's first channel.
    pub closed spec fn spec_address(&self) -> DmxAddress {
        self.address
    }

    /// The fixture's three values, in channel order: its public fields.
    pub closed spec fn spec_colour(&self) -> (T, T, T) {
        (self.r, self.g, self.b)
    }

    /// An RGB fixture at `address`, all channels off.
    ///
    /// `None` if its channels would run past the end of the universe.
    pub fn new(address: DmxAddress) -> (res: Option<Self>)
        ensures
            res is Some <==> address@ - 1 + 3 * T::CHANNELS <= 512,
            res matches Some(f) ==> {
                &&& f.wf()
                &&& f.spec_address() == address
                &&& f.spec_colour().0.spec_channel_bytes() == zeros(T::CHANNELS as nat)
                &&& f.spec_colour().1.spec_channel_bytes() == zeros(T::CHANNELS as nat)
                &&& f.spec_colour().2.spec_channel_bytes() == zeros(T::CHANNELS as nat)
            },
    {
        let z = T::zero();
        proof {
            z.lemma_channel_bytes_len();
            use_type_invariant(&address);
        }
        if address.index() + 3 * T::CHANNELS > 512 {
            return None;
        }
        Some(Self { address, r: T::zero(), g: T::zero(), b: T::zero() })
    }

    /// Sets all three colour channels.
    pub fn set_color(&mut self, r: T, g: T, b: T)
        ensures
            final(self).spec_colour() == (r, g, b),
            final(self).spec_address() == old(self).spec_address(),
    {
        self.r = r;
        self.g = g;
        self.b = b;
    }
}

impl<T: DmxValue> Fixture for RgbFixture<T> {
    open spec fn wf(&self) -> bool {
        1 <= self.spec_address()@ && self.spec_address()@ - 1 + 3 * T::CHANNELS <= 512
    }

    open spec fn spec_start(&self) -> int {
        self.spec_address()@ - 1
    }

    open spec fn spec_channel_bytes(&self) -> Seq<u8> {
        self.spec_colour().0.spec_channel_bytes() + self.spec_colour().1.spec_channel_bytes()
            + self.spec_colour().2.spec_channel_bytes()
    }

    proof fn lemma_wf_fits(&self) {
        self.r.lemma_channel_bytes_len();
        self.g.lemma_channel_bytes_len();
        self.b.lemma_channel_bytes_len();
    }

    fn channels(&self) -> (n: usize) {
        proof {
            self.r.lemma_channel_bytes_len();
            self.g.lemma_channel_bytes_len();
            self.b.lemma_channel_bytes_len();
        }
        3 * T::CHANNELS
    }

    fn address(&self) -> (a: DmxAddress) {
        self.address
    }

    fn write_to_universe(&self, buf: &mut [u8; 512]) {
        proof {
            self.r.lemma_channel_bytes_len();
            self.g.lemma_channel_bytes_len();
            self.b.lemma_channel_bytes_len();
        }
        let ghost u0 = buf@;
        let mut i = self.address.index();
        self.r.write_to(buf, i);
        i += T::CHANNELS;
        self.g.write_to(buf, i);
        i += T::CHANNELS;
        self.b.write_to(buf, i);
        assert(buf@ =~= self.spec_write(u0));
    }
}

/// A tunable white fixture: warm, neutral and cool values on consecutive channels.
#[derive(Debug)]
pub struct WhiteFixture<T: DmxValue> {
    address: DmxAddress,
    pub warm: T,
    pub neutral: T,
    pub cool: T,
}

impl<T: DmxValue> WhiteFixture<T> {
    /// The fixture's first channel.
    pub closed spec fn spec_address(&self) -> DmxAddress {
        self.address
    }

    /// The fixture's three values, in channel order: its public fields.
    pub closed spec fn spec_white(&self) -> (T, T, T) {
        (self.warm, self.neutral, self.cool)
    }

    /// A white fixture at `address`, all channels off.
    ///
    /// `None` if its channels would run past the end of the universe.
    pub fn new(address: DmxAddress) -> (res: Option<Self>)
        ensures
            res is Some <==> address@ - 1 + 3 * T::CHANNELS <= 512,
            res matches Some(f) ==> {
                &&& f.wf()
                &&& f.spec_address() == address
                &&& f.spec_white().0.spec_channel_bytes() == zeros(T::CHANNELS as nat)
                &&& f.spec_white().1.spec_channel_bytes() == zeros(T::CHANNELS as nat)
                &&& f.spec_white().2.spec_channel_bytes() == zeros(T::CHANNELS as nat)
            },
    {
        let z = T::zero();
        proof {
            z.lemma_channel_bytes_len();
            use_type_invariant(&address);
        }
        if address.index() + 3 * T::CHANNELS > 512 {
            return None;
        }
        Some(Self { address, warm: T::zero(), neutral: T::zero(), cool: T::zero() })
    }

    /// Sets all three white channels.
    pub fn set_white(&mut self, warm: T, neutral: T, cool: T)
        ensures
            final(self).spec_white() == (warm, neutral, cool),
            final(self).spec_address() == old(self).spec_address(),
    {
        self.warm = warm;
        self.neutral = neutral;
        self.cool = cool;
    }
}

impl<T: DmxValue> Fixture for WhiteFixture<T> {
    open spec fn wf(&self) -> bool {
        1 <= self.spec_address()@ && self.spec_address()@ - 1 + 3 * T::CHANNELS <= 512
    }

    open spec fn spec_start(&self) -> int {
        self.spec_address()@ - 1
    }

    open spec fn spec_channel_bytes(&self) -> Seq<u8> {
        self.spec_white().0.spec_channel_bytes() + self.spec_white().1.spec_channel_bytes()
            + self.spec_white().2.spec_channel_bytes()
    }

    proof fn lemma_wf_fits(&self) {
        self.warm.lemma_channel_bytes_len();
        self.neutral.lemma_channel_bytes_len();
        self.cool.lemma_channel_bytes_len();
    }

    fn channels(&self) -> (n: usize) {
        proof {
            self.warm.lemma_channel_bytes_len();
            self.neutral.lemma_channel_bytes_len();
            self.cool.lemma_channel_bytes_len();
        }
        3 * T::CHANNELS
    }

    fn address(&self) -> (a: DmxAddress) {
        self.address
    }

    fn write_to_universe(&self, buf: &mut [u8; 512]) {
        proof {
            self.warm.lemma_channel_bytes_len();
            self.neutral.lemma_channel_bytes_len();
            self.cool.lemma_channel_bytes_len();
        }
        let ghost u0 = buf@;
        let mut i = self.address.index();
        self.warm.write_to(buf, i);
        i += T::CHANNELS;
        self.neutral.write_to(buf, i);
        i += T::CHANNELS;
        self.cool.write_to(buf, i);
        assert(buf@ =~= self.spec_write(u0));
    }
}

} // verus!
