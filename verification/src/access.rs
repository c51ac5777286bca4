use vstd::prelude::*;

verus! {

/// Whether the bit (or bits) of `mask` are set in `raw`.
pub open spec fn has_flag(raw: u16, mask: u16) -> bool {
    raw & mask != 0
}

/// Class access and property modifiers.
#[derive(Debug, Clone, Copy)]
pub struct ClassAccessFlag(u16);

/// Method access and property flags.
#[derive(Debug, Clone, Copy)]
pub struct MethodAccessFlag(u16);

impl View for ClassAccessFlag {
    type V = u16;

    closed spec fn view(&self) -> u16 {
        self.0
    }
}

impl ClassAccessFlag {
    pub fn new(value: u16) -> (r: Self)
        ensures
            r@ == value,
    {
        Self(value)
    }

    /// Whether the `ACC_PUBLIC` bit (0x0001) is set.
    pub fn is_public(&self) -> (r: bool)
        ensures
            r == has_flag(self@, 0x0001),
    {
        self.0 & 0x0001 != 0
    }

    /// Whether the `ACC_FINAL` bit (0x0010) is set.
    pub fn is_final(&self) -> (r: bool)
        ensures
            r == has_flag(self@, 0x0010),
    {
        self.0 & 0x0010 != 0
    }

    /// Whether the `ACC_SUPER` bit (0x0020) is set.
    pub fn is_super(&self) -> (r: bool)
        ensures
            r == has_flag(self@, 0x0020),
    {
        self.0 & 0x0020 != 0
    }

    /// Whether the `ACC_INTERFACE` bit (0x0200) is set.
    pub fn is_interface(&self) -> (r: bool)
        ensures
            r == has_flag(self@, 0x0200),
    {
        self.0 & 0x0200 != 0
    }

    /// Whether the `ACC_ABSTRACT` bit (0x0400) is set.
    pub fn is_abstract(&self) -> (r: bool)
        ensures
            r == has_flag(self@, 0x0400),
    {
        self.0 & 0x0400 != 0
    }

    /// Whether the `ACC_SYNTHETIC` bit (0x1000) is set.
    pub fn is_synthetic(&self) -> (r: bool)
        ensures
            r == has_flag(self@, 0x1000),
    {
        self.0 & 0x1000 != 0
    }

    /// Whether the `ACC_ANNOTATION` bit (0x2000) is set.
    pub fn is_annotation(&self) -> (r: bool)
        ensures
            r == has_flag(self@, 0x2000),
    {
        self.0 & 0x2000 != 0
    }

    /// Whether the `ACC_ENUM` bit (0x4000) is set.
    pub fn is_enum(&self) -> (r: bool)
        ensures
            r == has_flag(self@, 0x4000),
    {
        self.0 & 0x4000 != 0
    }

    /// Whether the `ACC_MODULE` bit (0x8000) is set.
    pub fn is_module(&self) -> (r: bool)
        ensures
            r == has_flag(self@, 0x8000),
    {
        self.0 & 0x8000 != 0
    }

    pub fn get_raw(&self) -> (r: &u16)
        ensures
            *r == self@,
    {
        &self.0
    }
}

impl View for MethodAccessFlag {
    type V = u16;

    closed spec fn view(&self) -> u16 {
        self.0
    }
}

impl MethodAccessFlag {
    pub fn new(value: u16) -> (r: Self)
        ensures
            r@ == value,
    {
        Self(value)
    }

    /// Whether the `ACC_PUBLIC` bit (0x0001) is set.
    pub fn is_public(&self) -> (r: bool)
        ensures
            r == has_flag(self@, 0x0001),
    {
        self.0 & 0x0001 != 0
    }

    /// Whether the `ACC_PRIVATE` bit (0x0002) is set.
    pub fn is_private(&self) -> (r: bool)
        ensures
            r == has_flag(self@, 0x0002),
    {
        self.0 & 0x0002 != 0
    }

    /// Whether the `ACC_PROTECTED` bit (0x0004) is set.
    pub fn is_protected(&self) -> (r: bool)
        ensures
            r == has_flag(self@, 0x0004),
    {
        self.0 & 0x0004 != 0
    }

    /// Whether the `ACC_STATIC` bit (0x0008) is set.
    pub fn is_static(&self) -> (r: bool)
        ensures
            r == has_flag(self@, 0x0008),
    {
        self.0 & 0x0008 != 0
    }

    /// Whether the `ACC_FINAL` bit (0x0010) is set.
    pub fn is_final(&self) -> (r: bool)
        ensures
            r == has_flag(self@, 0x0010),
    {
        self.0 & 0x0010 != 0
    }

    /// Whether the `ACC_SYNCHRONIZED` bit (0x0020) is set.
    pub fn is_synchronized(&self) -> (r: bool)
        ensures
            r == has_flag(self@, 0x0020),
    {
        self.0 & 0x0020 != 0
    }

    /// Whether the `ACC_BRIDGE` bit (0x0040) is set.
    pub fn is_bridge(&self) -> (r: bool)
        ensures
            r == has_flag(self@, 0x0040),
    {
        self.0 & 0x0040 != 0
    }

    /// Whether the `ACC_VARARGS` bit (0x0080) is set.
    pub fn is_varargs(&self) -> (r: bool)
        ensures
            r == has_flag(self@, 0x0080),
    {
        self.0 & 0x0080 != 0
    }

    /// Whether the `ACC_NATIVE` bit (0x0100) is set.
    pub fn is_native(&self) -> (r: bool)
        ensures
            r == has_flag(self@, 0x0100),
    {
        self.0 & 0x0100 != 0
    }

    /// Whether the `ACC_ABSTRACT` bit (0x0400) is set.
    pub fn is_abstract(&self) -> (r: bool)
        ensures
            r == has_flag(self@, 0x0400),
    {
        self.0 & 0x0400 != 0
    }

    /// Whether the `ACC_STRICT` bit (0x0800) is set.
    pub fn is_strict(&self) -> (r: bool)
        ensures
            r == has_flag(self@, 0x0800),
    {
        self.0 & 0x0800 != 0
    }

    /// Whether the `ACC_SYNTHETIC` bit (0x1000) is set.
    pub fn is_synthetic(&self) -> (r: bool)
        ensures
            r == has_flag(self@, 0x1000),
    {
        self.0 & 0x1000 != 0
    }

    pub fn get_raw(&self) -> (r: &u16)
        ensures
            *r == self@,
    {
        &self.0
    }
}

} // verus!
