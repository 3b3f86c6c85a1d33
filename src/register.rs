//! Accessors: an in-memory register, a snapshot of an externally backed
//! register, and the three externally backed strategies.

use vstd::prelude::*;

use crate::bits::low_mask;
use crate::config::{Implementation, KindArg};
use crate::descriptor::{AccessError, BitAccess, Field, FieldDefinition};

verus! {

/// Loads the raw value of an externally backed register (its `read_via`
/// code).
pub trait ReadVia {
    fn read_via(&self) -> u64;
}

/// Stores the raw value of an externally backed register (its `write_via`
/// code).
pub trait WriteVia {
    fn write_via(&mut self, value: u64);
}

/// A register whose raw value is held in memory.
#[derive(Clone, Copy, Debug, PartialEq, Eq)]
pub struct InlineRegister<'a> {
    layout: &'a BitAccess,
    kind: KindArg,
    value: u64,
}

/// A raw value taken from a register once, read and changed apart from it.
#[derive(Clone, Copy, Debug, PartialEq, Eq)]
pub struct Snapshot<'a> {
    layout: &'a BitAccess,
    value: u64,
}

/// An externally backed register that can only be read.
pub struct ReadOnlyRegister<'a, P: ReadVia> {
    layout: &'a BitAccess,
    backend: P,
}

/// An externally backed register that can be read and written.
pub struct ReadWriteRegister<'a, P: ReadVia + WriteVia> {
    layout: &'a BitAccess,
    backend: P,
}

/// An externally backed register that can only be written. It has no
/// `read`: reading it is refused when the caller is compiled.
pub struct WriteOnlyRegister<'a, P: WriteVia> {
    layout: &'a BitAccess,
    backend: P,
}

/// `value` cut down to the register's width.
pub open spec fn truncated(layout: &BitAccess, value: u64) -> u64 {
    value & low_mask(layout.bits_spec())
}

/// Cuts `value` down to the register's width.
fn truncate(layout: &BitAccess, value: u64) -> (r: u64)
    ensures
        r == truncated(layout, value),
        r <= low_mask(layout.bits_spec()),
{
    let max = layout.top_level_arguments.base_type.max_value();
    assert(value & max <= max) by (bit_vector);
    value & max
}

impl<'a> InlineRegister<'a> {
    /// The raw value held.
    pub closed spec fn raw(&self) -> u64 {
        self.value
    }

    /// The register's descriptor.
    pub closed spec fn layout(&self) -> &'a BitAccess {
        self.layout
    }

    /// The register's access kind.
    pub closed spec fn kind(&self) -> KindArg {
        self.kind
    }

    /// The descriptor is well formed, selects the inline strategy with this
    /// kind, and the raw value fits the register.
    pub closed spec fn wf(&self) -> bool {
        &&& self.layout.wf()
        &&& self.layout.top_level_arguments.implementation == Implementation::Inline(self.kind)
        &&& self.value <= low_mask(self.layout.bits_spec())
    }

    /// What a well-formed register's descriptor and value satisfy: the
    /// descriptor is well formed (so the descriptor's laws apply to the
    /// register), it selects the inline strategy, and the value fits.
    pub proof fn lemma_wf(&self)
        requires
            self.wf(),
        ensures
            self.layout().wf(),
            self.layout().top_level_arguments.implementation == Implementation::Inline(self.kind()),
            self.raw() <= low_mask(self.layout().bits_spec()),
    {
    }

    /// A register of the inline strategy holding `value`, cut down to its
    /// width.
    pub fn new(layout: &'a BitAccess, value: u64) -> (r: Result<Self, AccessError>)
        requires
            layout.wf(),
        ensures
            match layout.top_level_arguments.implementation {
                Implementation::Inline(k) => r matches Ok(reg) && reg.wf() && reg.layout() == layout
                    && reg.kind() == k && reg.raw() == truncated(layout, value),
                _ => r == Err::<Self, AccessError>(AccessError::WrongStrategy),
            },
    {
        match &layout.top_level_arguments.implementation {
            Implementation::Inline(k) => Ok(InlineRegister { layout, kind: *k, value: truncate(layout, value) }),
            _ => Err(AccessError::WrongStrategy),
        }
    }

    /// A register of the inline strategy holding zero.
    pub fn zero(layout: &'a BitAccess) -> (r: Result<Self, AccessError>)
        requires
            layout.wf(),
        ensures
            match layout.top_level_arguments.implementation {
                Implementation::Inline(k) => r matches Ok(reg) && reg.wf() && reg.layout() == layout
                    && reg.kind() == k && reg.raw() == 0,
                _ => r == Err::<Self, AccessError>(AccessError::WrongStrategy),
            },
    {
        let r = Self::new(layout, 0);
        assert(0u64 & low_mask(layout.bits_spec()) == 0) by (bit_vector);
        r
    }

    /// The whole raw value, if the register can be read.
    pub fn get(&self) -> (r: Result<u64, AccessError>)
        requires
            self.wf(),
        ensures
            self.kind().read ==> r == Ok::<u64, AccessError>(self.raw()),
            !self.kind().read ==> r == Err::<u64, AccessError>(AccessError::NotReadable),
    {
        if self.kind.read {
            Ok(self.value)
        } else {
            Err(AccessError::NotReadable)
        }
    }

    /// Replaces the whole raw value, cut down to the register's width, if
    /// the register can be written.
    pub fn set(&mut self, raw: u64) -> (r: Result<(), AccessError>)
        requires
            old(self).wf(),
        ensures
            final(self).wf(),
            final(self).layout() == old(self).layout(),
            final(self).kind() == old(self).kind(),
            old(self).kind().write ==> r is Ok && final(self).raw() == truncated(old(self).layout(), raw),
            !old(self).kind().write ==> r == Err::<(), AccessError>(AccessError::NotWritable)
                && final(self).raw() == old(self).raw(),
    {
        if !self.kind.write {
            return Err(AccessError::NotWritable);
        }
        self.value = truncate(self.layout, raw);
        Ok(())
    }

    /// Reads the field named by `bits`: `(raw & mask) >> offset`.
    pub fn read(&self, bits: &FieldDefinition) -> (r: Result<Field, AccessError>)
        requires
            self.wf(),
        ensures
            !self.kind().read ==> r == Err::<Field, AccessError>(AccessError::NotReadable),
            self.kind().read ==> match self.layout().read_spec(self.raw(), bits.mask) {
                Ok(v) => r == Ok::<Field, AccessError>(Field { value: v }),
                Err(e) => r == Err::<Field, AccessError>(e),
            },
    {
        if !self.kind.read {
            return Err(AccessError::NotReadable);
        }
        self.layout.read_bits(self.value, bits)
    }

    /// Writes `value`, truncated to the field named by `bits`, keeping every
    /// other bit.
    pub fn write(&mut self, bits: &FieldDefinition, value: u64) -> (r: Result<(), AccessError>)
        requires
            old(self).wf(),
        ensures
            final(self).wf(),
            final(self).layout() == old(self).layout(),
            final(self).kind() == old(self).kind(),
            !old(self).kind().write ==> r == Err::<(), AccessError>(AccessError::NotWritable)
                && final(self).raw() == old(self).raw(),
            old(self).kind().write ==> match old(self).layout().write_spec(old(self).raw(), bits.mask, value) {
                Ok(v) => r is Ok && final(self).raw() == v,
                Err(e) => r == Err::<(), AccessError>(e) && final(self).raw() == old(self).raw(),
            },
    {
        if !self.kind.write {
            return Err(AccessError::NotWritable);
        }
        let v = self.layout.write_bits(self.value, bits, value)?;
        self.value = v;
        Ok(())
    }

    /// The name of the variant that the field named by `bits` holds.
    pub fn read_variant(&self, bits: &FieldDefinition) -> (r: Result<String, AccessError>)
        requires
            self.wf(),
        ensures
            !self.kind().read ==> r == Err::<String, AccessError>(AccessError::NotReadable),
            self.kind().read ==> match self.layout().variant_spec(self.raw(), bits.mask) {
                Ok(n) => r matches Ok(s) && s@ == n,
                Err(e) => r == Err::<String, AccessError>(e),
            },
    {
        if !self.kind.read {
            return Err(AccessError::NotReadable);
        }
        self.layout.variant_of(self.value, bits)
    }

    /// Writes the value of the variant named `name` into the field named by
    /// `bits`.
    pub fn write_variant(&mut self, bits: &FieldDefinition, name: &str) -> (r: Result<(), AccessError>)
        requires
            old(self).wf(),
        ensures
            final(self).wf(),
            final(self).layout() == old(self).layout(),
            final(self).kind() == old(self).kind(),
            !old(self).kind().write ==> r == Err::<(), AccessError>(AccessError::NotWritable)
                && final(self).raw() == old(self).raw(),
            old(self).kind().write ==> match old(self).layout().variant_value_spec(bits.mask, name@) {
                Ok(v) => match old(self).layout().write_spec(old(self).raw(), bits.mask, v) {
                    Ok(w) => r is Ok && final(self).raw() == w,
                    Err(e) => r == Err::<(), AccessError>(e) && final(self).raw() == old(self).raw(),
                },
                Err(e) => r == Err::<(), AccessError>(e) && final(self).raw() == old(self).raw(),
            },
    {
        if !self.kind.write {
            return Err(AccessError::NotWritable);
        }
        let v = self.layout.variant_value(bits, name)?;
        self.write(bits, v)
    }
}

impl<'a> Snapshot<'a> {
    /// The raw value held.
    pub closed spec fn raw(&self) -> u64 {
        self.value
    }

    /// The register's descriptor.
    pub closed spec fn layout(&self) -> &'a BitAccess {
        self.layout
    }

    /// The descriptor is well formed and the raw value fits the register.
    pub closed spec fn wf(&self) -> bool {
        &&& self.layout.wf()
        &&& self.value <= low_mask(self.layout.bits_spec())
    }

    /// A snapshot holding `value`, cut down to the register's width.
    pub fn new(layout: &'a BitAccess, value: u64) -> (r: Self)
        requires
            layout.wf(),
        ensures
            r.wf(),
            r.layout() == layout,
            r.raw() == truncated(layout, value),
    {
        Snapshot { layout, value: truncate(layout, value) }
    }

    /// The whole raw value held.
    pub fn get(&self) -> (r: u64)
        ensures
            r == self.raw(),
    {
        self.value
    }

    /// Reads the field named by `bits` from the value held.
    pub fn read(&self, bits: &FieldDefinition) -> (r: Result<Field, AccessError>)
        requires
            self.wf(),
        ensures
            match self.layout().read_spec(self.raw(), bits.mask) {
                Ok(v) => r == Ok::<Field, AccessError>(Field { value: v }),
                Err(e) => r == Err::<Field, AccessError>(e),
            },
    {
        self.layout.read_bits(self.value, bits)
    }

    /// The name of the variant that the field named by `bits` holds.
    pub fn read_variant(&self, bits: &FieldDefinition) -> (r: Result<String, AccessError>)
        requires
            self.wf(),
        ensures
            match self.layout().variant_spec(self.raw(), bits.mask) {
                Ok(n) => r matches Ok(s) && s@ == n,
                Err(e) => r == Err::<String, AccessError>(e),
            },
    {
        self.layout.variant_of(self.value, bits)
    }

    /// Writes `value`, truncated to the field named by `bits`, into the value
    /// held, keeping every other bit. Only the snapshot changes: nothing is
    /// written to the register it was taken from.
    pub fn write_to_cache(&mut self, bits: &FieldDefinition, value: u64) -> (r: Result<(), AccessError>)
        requires
            old(self).wf(),
        ensures
            final(self).wf(),
            final(self).layout() == old(self).layout(),
            match old(self).layout().write_spec(old(self).raw(), bits.mask, value) {
                Ok(v) => r is Ok && final(self).raw() == v,
                Err(e) => r == Err::<(), AccessError>(e) && final(self).raw() == old(self).raw(),
            },
    {
        let v = self.layout.write_bits(self.value, bits, value)?;
        self.value = v;
        Ok(())
    }
}

/// `set` followed by `get`: a register set to a raw value that fits its
/// width holds exactly that value, which `get` then returns.
pub proof fn lemma_get_after_set(before: InlineRegister, after: InlineRegister, raw: u64)
    requires
        before.wf(),
        before.kind().write,
        after.layout() == before.layout(),
        after.raw() == truncated(before.layout(), raw),
        raw <= low_mask(before.layout().bits_spec()),
    ensures
        after.raw() == raw,
{
    let bits = before.layout().bits_spec();
    let full = low_mask(bits);
    if bits >= 64 {
        assert(raw & 0xffff_ffff_ffff_ffffu64 == raw) by (bit_vector);
    } else {
        assert(raw & full == raw) by (bit_vector)
            requires
                full == ((1u64 << bits) - 1) as u64,
                raw <= full,
                bits < 64,
        ;
    }
}

impl<'a> Snapshot<'a> {
    /// What a well-formed snapshot's descriptor and value satisfy.
    pub proof fn lemma_wf(&self)
        requires
            self.wf(),
        ensures
            self.layout().wf(),
            self.raw() <= low_mask(self.layout().bits_spec()),
    {
    }
}

impl<'a, P: ReadVia> ReadOnlyRegister<'a, P> {
    /// The register's descriptor.
    pub closed spec fn layout(&self) -> &'a BitAccess {
        self.layout
    }

    /// The descriptor is well formed.
    pub closed spec fn wf(&self) -> bool {
        self.layout.wf()
    }

    /// A read-only register reached through `backend`, for a descriptor of that
    /// strategy.
    pub fn new(layout: &'a BitAccess, backend: P) -> (r: Result<Self, AccessError>)
        requires
            layout.wf(),
        ensures
            layout.top_level_arguments.implementation is GlobalReadOnly ==> (r matches Ok(reg)
                && reg.wf() && reg.layout() == layout),
            !(layout.top_level_arguments.implementation is GlobalReadOnly) ==> r is Err,
    {
        match &layout.top_level_arguments.implementation {
            Implementation::GlobalReadOnly(_) => Ok(ReadOnlyRegister { layout, backend }),
            _ => Err(AccessError::WrongStrategy),
        }
    }

    /// The whole raw value, loaded through its backend and cut down to the
    /// register's width.
    pub fn get(&self) -> (r: u64)
        requires
            self.wf(),
        ensures
            r <= low_mask(self.layout().bits_spec()),
    {
        truncate(self.layout, self.backend.read_via())
    }

    /// Reads the field named by `bits` from a value loaded through its backend.
    pub fn read(&self, bits: &FieldDefinition) -> (r: Result<Field, AccessError>)
        requires
            self.wf(),
        ensures
            self.layout().selected(bits.mask) is None ==> r == Err::<Field, AccessError>(AccessError::UnknownField),
            self.layout().selected(bits.mask) is Some ==> r is Ok,
            r matches Ok(f) ==> exists|raw: u64|
                raw <= low_mask(self.layout().bits_spec()) && self.layout().read_spec(raw, bits.mask)
                    == Ok::<u64, AccessError>(f.value),
    {
        let raw = self.get();
        self.layout.read_bits(raw, bits)
    }

    /// A snapshot of the value loaded through its backend.
    pub fn fetch(&self) -> (r: Snapshot<'a>)
        requires
            self.wf(),
        ensures
            r.wf(),
            r.layout() == self.layout(),
    {
        Snapshot::new(self.layout, self.backend.read_via())
    }
}

impl<'a, P: ReadVia + WriteVia> ReadWriteRegister<'a, P> {
    /// The register's descriptor.
    pub closed spec fn layout(&self) -> &'a BitAccess {
        self.layout
    }

    /// The descriptor is well formed.
    pub closed spec fn wf(&self) -> bool {
        self.layout.wf()
    }

    /// A read-write register reached through `backend`, for a descriptor of
    /// that strategy.
    pub fn new(layout: &'a BitAccess, backend: P) -> (r: Result<Self, AccessError>)
        requires
            layout.wf(),
        ensures
            layout.top_level_arguments.implementation is GlobalReadWrite ==> (r matches Ok(reg)
                && reg.wf() && reg.layout() == layout),
            !(layout.top_level_arguments.implementation is GlobalReadWrite) ==> r is Err,
    {
        match &layout.top_level_arguments.implementation {
            Implementation::GlobalReadWrite(_) => Ok(ReadWriteRegister { layout, backend }),
            _ => Err(AccessError::WrongStrategy),
        }
    }

    /// The whole raw value, loaded through its backend and cut down to the
    /// register's width.
    pub fn get(&self) -> (r: u64)
        requires
            self.wf(),
        ensures
            r <= low_mask(self.layout().bits_spec()),
    {
        truncate(self.layout, self.backend.read_via())
    }

    /// Stores a whole raw value, cut down to the register's width, through
    /// its backend.
    pub fn set(&mut self, raw: u64)
        requires
            old(self).wf(),
        ensures
            final(self).wf(),
            final(self).layout() == old(self).layout(),
    {
        let v = truncate(self.layout, raw);
        self.backend.write_via(v);
    }

    /// Reads the field named by `bits` from a value loaded through its backend.
    pub fn read(&self, bits: &FieldDefinition) -> (r: Result<Field, AccessError>)
        requires
            self.wf(),
        ensures
            self.layout().selected(bits.mask) is None ==> r == Err::<Field, AccessError>(AccessError::UnknownField),
            self.layout().selected(bits.mask) is Some ==> r is Ok,
            r matches Ok(f) ==> exists|raw: u64|
                raw <= low_mask(self.layout().bits_spec()) && self.layout().read_spec(raw, bits.mask)
                    == Ok::<u64, AccessError>(f.value),
    {
        let raw = self.get();
        self.layout.read_bits(raw, bits)
    }

    /// Loads the raw value, replaces the field named by `bits` with `value`,
    /// truncated to the field, and stores the result through its backend.
    pub fn write(&mut self, bits: &FieldDefinition, value: u64) -> (r: Result<(), AccessError>)
        requires
            old(self).wf(),
        ensures
            final(self).wf(),
            final(self).layout() == old(self).layout(),
            old(self).layout().selected(bits.mask) is None <==> r == Err::<(), AccessError>(AccessError::UnknownField),
            r is Ok || r == Err::<(), AccessError>(AccessError::UnknownField),
    {
        let raw = self.get();
        let v = self.layout.write_bits(raw, bits, value)?;
        self.backend.write_via(v);
        Ok(())
    }

    /// A snapshot of the value loaded through its backend.
    pub fn fetch(&self) -> (r: Snapshot<'a>)
        requires
            self.wf(),
        ensures
            r.wf(),
            r.layout() == self.layout(),
    {
        Snapshot::new(self.layout, self.backend.read_via())
    }
}

impl<'a, P: WriteVia> WriteOnlyRegister<'a, P> {
    /// The register's descriptor.
    pub closed spec fn layout(&self) -> &'a BitAccess {
        self.layout
    }

    /// The descriptor is well formed.
    pub closed spec fn wf(&self) -> bool {
        self.layout.wf()
    }

    /// A write-only register reached through `backend`, for a descriptor of
    /// that strategy.
    pub fn new(layout: &'a BitAccess, backend: P) -> (r: Result<Self, AccessError>)
        requires
            layout.wf(),
        ensures
            layout.top_level_arguments.implementation is GlobalWriteOnly ==> (r matches Ok(reg)
                && reg.wf() && reg.layout() == layout),
            !(layout.top_level_arguments.implementation is GlobalWriteOnly) ==> r is Err,
    {
        match &layout.top_level_arguments.implementation {
            Implementation::GlobalWriteOnly(_) => Ok(WriteOnlyRegister { layout, backend }),
            _ => Err(AccessError::WrongStrategy),
        }
    }

    /// Stores a whole raw value, cut down to the register's width, through
    /// its backend.
    pub fn set(&mut self, raw: u64)
        requires
            old(self).wf(),
        ensures
            final(self).wf(),
            final(self).layout() == old(self).layout(),
    {
        let v = truncate(self.layout, raw);
        self.backend.write_via(v);
    }

    /// Stores, through its backend, `value` truncated to the field named by
    /// `bits` and every other bit zero: the register cannot be read back, so
    /// the other fields are not kept.
    pub fn write(&mut self, bits: &FieldDefinition, value: u64) -> (r: Result<(), AccessError>)
        requires
            old(self).wf(),
        ensures
            final(self).wf(),
            final(self).layout() == old(self).layout(),
            old(self).layout().selected(bits.mask) is None <==> r == Err::<(), AccessError>(AccessError::UnknownField),
            r is Ok || r == Err::<(), AccessError>(AccessError::UnknownField),
    {
        let v = self.layout.write_bits_alone(bits, value)?;
        self.backend.write_via(v);
        Ok(())
    }
}

} // verus!
