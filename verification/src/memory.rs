//! The memory of the emulator

use crate::bits::word_of;
use crate::const_checks::valid_address_size;
use vstd::prelude::*;

verus! {

/// An address to reference memory
#[derive(Debug, Copy, Clone, PartialEq, Eq, Structural)]
pub struct Address(pub usize);

impl Address {
    /// The address `offset` bytes after this one
    pub fn offset(self, offset: usize) -> (res: Address)
        requires
            self.0 + offset <= usize::MAX,
        ensures
            res.0 == self.0 + offset,
    {
        Address(self.0 + offset)
    }
}

/// Errors of the memory
#[derive(Debug, Copy, Clone, PartialEq, Eq, Structural)]
pub enum Error {
    /// Attempted to read an out of bounds address
    OutOfBoundsRead(Address),
    /// Attempted to write an out of bounds address
    OutOfBoundsWrite(Address),
    /// The image of the given number of bytes does not fit into the memory
    ImageTooLarge(usize),
}

/// The memory for the emulator: `SIZE` bytes, of which the first `length`
/// were loaded from an image.
pub struct Memory<const SIZE: usize> {
    pub memory: Vec<u8>,
    /// Length of valid memory
    pub length: usize,
}

/// The low byte of a word.
pub open spec fn low_byte(value: u16) -> u8 {
    (value % 256) as u8
}

/// The high byte of a word.
pub open spec fn high_byte(value: u16) -> u8 {
    (value / 256) as u8
}

/// The result of reading one byte.
pub open spec fn read_byte(bytes: Seq<u8>, address: Address) -> Result<u8, Error> {
    if address.0 < bytes.len() {
        Ok(bytes[address.0 as int])
    } else {
        Err(Error::OutOfBoundsRead(address))
    }
}

/// The result of reading one little-endian word.
pub open spec fn read_word(bytes: Seq<u8>, address: Address) -> Result<u16, Error> {
    if address.0 + 1 < bytes.len() {
        Ok(word_of(bytes[address.0 as int], bytes[address.0 + 1]))
    } else {
        Err(Error::OutOfBoundsRead(address))
    }
}

/// The result of writing one byte: the new contents.
pub open spec fn write_byte(bytes: Seq<u8>, address: Address, value: u8) -> Result<Seq<u8>, Error> {
    if address.0 < bytes.len() {
        Ok(bytes.update(address.0 as int, value))
    } else {
        Err(Error::OutOfBoundsWrite(address))
    }
}

/// The result of writing one little-endian word: the new contents.
pub open spec fn write_word(bytes: Seq<u8>, address: Address, value: u16) -> Result<
    Seq<u8>,
    Error,
> {
    if address.0 + 1 < bytes.len() {
        Ok(
            bytes.update(address.0 as int, low_byte(value)).update(
                address.0 + 1,
                high_byte(value),
            ),
        )
    } else {
        Err(Error::OutOfBoundsWrite(address))
    }
}

/// The memory that holds an image at its start and zeros behind it.
pub open spec fn loaded(data: Seq<u8>, size: nat) -> Seq<u8> {
    Seq::new(
        size,
        |i: int|
            if i < data.len() {
                data[i]
            } else {
                0u8
            },
    )
}

impl<const SIZE: usize> Memory<SIZE> {
    /// The memory has `SIZE` bytes, a power of two that 16 bits can hold.
    pub open spec fn wf(&self) -> bool {
        &&& valid_address_size(SIZE)
        &&& self.memory@.len() == SIZE
        &&& self.length <= SIZE
    }

    /// Create a new blank memory
    pub fn new() -> (res: Memory<SIZE>)
        requires
            valid_address_size(SIZE),
        ensures
            res.wf(),
            res.length == 0,
            res.memory@ == loaded(Seq::<u8>::empty(), SIZE as nat),
    {
        let mut memory: Vec<u8> = Vec::new();
        let mut i: usize = 0;
        while i < SIZE
            invariant
                i <= SIZE,
                memory@.len() == i,
                forall|k: int| 0 <= k < i ==> memory@[k] == 0u8,
            decreases SIZE - i,
        {
            memory.push(0);
            i += 1;
        }
        assert(memory@ =~= loaded(Seq::<u8>::empty(), SIZE as nat));
        Memory { memory, length: 0 }
    }

    /// Create a memory that holds the given image at its start
    pub fn from_bytes(data: &[u8]) -> (res: Result<Memory<SIZE>, Error>)
        requires
            valid_address_size(SIZE),
        ensures
            data@.len() > SIZE ==> res == Err::<Memory<SIZE>, Error>(
                Error::ImageTooLarge(data@.len() as usize),
            ),
            data@.len() <= SIZE ==> res is Ok && res->Ok_0.wf() && res->Ok_0.length == data@.len()
                && res->Ok_0.memory@ == loaded(data@, SIZE as nat),
    {
        if data.len() > SIZE {
            return Err(Error::ImageTooLarge(data.len()));
        }
        let mut memory: Vec<u8> = Vec::new();
        let mut i: usize = 0;
        while i < SIZE
            invariant
                i <= SIZE,
                data@.len() <= SIZE,
                memory@.len() == i,
                forall|k: int| 0 <= k < i ==> memory@[k] == loaded(data@, SIZE as nat)[k],
            decreases SIZE - i,
        {
            let byte: u8 = if i < data.len() {
                data[i]
            } else {
                0
            };
            memory.push(byte);
            i += 1;
        }
        assert(memory@ =~= loaded(data@, SIZE as nat));
        Ok(Memory { memory, length: data.len() })
    }

    /// Read the byte at the given address
    pub fn read_u8(&self, address: Address) -> (res: Result<u8, Error>)
        requires
            self.wf(),
        ensures
            res == read_byte(self.memory@, address),
    {
        if address.0 < self.memory.len() {
            Ok(self.memory[address.0])
        } else {
            Err(Error::OutOfBoundsRead(address))
        }
    }

    /// Read the little-endian word at the given address
    pub fn read_u16(&self, address: Address) -> (res: Result<u16, Error>)
        requires
            self.wf(),
        ensures
            res == read_word(self.memory@, address),
    {
        if address.0 < self.memory.len() && address.0 + 1 < self.memory.len() {
            let low: u16 = self.memory[address.0] as u16;
            let high: u16 = self.memory[address.0 + 1] as u16;
            Ok(low + 256 * high)
        } else {
            Err(Error::OutOfBoundsRead(address))
        }
    }

    /// Write the byte to the given address
    pub fn write_u8(&mut self, address: Address, value: u8) -> (res: Result<(), Error>)
        requires
            old(self).wf(),
        ensures
            final(self).wf(),
            final(self).length == old(self).length,
            match write_byte(old(self).memory@, address, value) {
                Ok(bytes) => res is Ok && final(self).memory@ == bytes,
                Err(e) => res == Err::<(), Error>(e) && final(self).memory@ == old(self).memory@,
            },
    {
        if address.0 < self.memory.len() {
            self.memory.set(address.0, value);
            Ok(())
        } else {
            Err(Error::OutOfBoundsWrite(address))
        }
    }

    /// Write the word to the given address, low byte first
    pub fn write_u16(&mut self, address: Address, value: u16) -> (res: Result<(), Error>)
        requires
            old(self).wf(),
        ensures
            final(self).wf(),
            final(self).length == old(self).length,
            match write_word(old(self).memory@, address, value) {
                Ok(bytes) => res is Ok && final(self).memory@ == bytes,
                Err(e) => res == Err::<(), Error>(e) && final(self).memory@ == old(self).memory@,
            },
    {
        if address.0 < self.memory.len() && address.0 + 1 < self.memory.len() {
            self.memory.set(address.0, (value % 256) as u8);
            self.memory.set(address.0 + 1, (value / 256) as u8);
            Ok(())
        } else {
            Err(Error::OutOfBoundsWrite(address))
        }
    }
}

} // verus!
