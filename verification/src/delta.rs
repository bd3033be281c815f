//! The change bitmask: one named boolean flag per output attribute, and the
//! field-by-field comparator that computes it from two output snapshots.
use crate::output::{ids_eq, modes_eq, opt_i64_eq, opt_mode_eq, opt_str_eq, opt_u64_eq, Output,
    OutputV};
use crate::output::{rect_eq, str_eq};
use vstd::prelude::*;

verus! {

/// One flag per output attribute; a set value means the attribute differs
/// between the previous and the current snapshot of the same output.
#[derive(Clone, Copy, Debug, PartialEq, Eq, Structural)]
pub struct DeltaBits {
    pub id: bool,
    pub name: bool,
    pub make: bool,
    pub model: bool,
    pub serial: bool,
    pub active: bool,
    pub dpms: bool,
    pub primary: bool,
    pub scale: bool,
    pub subpixel_hinting: bool,
    pub transform: bool,
    pub current_workspace: bool,
    pub modes: bool,
    pub current_mode: bool,
    pub rect: bool,
    pub focus: bool,
    pub focused: bool,
}

impl DeltaBits {
    /// No flag is set: the two snapshots agree on every attribute.
    pub open spec fn spec_empty(self) -> bool {
        !self.id && !self.name && !self.make && !self.model && !self.serial && !self.active
            && !self.dpms && !self.primary && !self.scale && !self.subpixel_hinting
            && !self.transform && !self.current_workspace && !self.modes && !self.current_mode
            && !self.rect && !self.focus && !self.focused
    }

    /// Some flag is set in both masks.
    pub open spec fn spec_intersects(self, other: DeltaBits) -> bool {
        (self.id && other.id) || (self.name && other.name) || (self.make && other.make) || (
        self.model && other.model) || (self.serial && other.serial) || (self.active
            && other.active) || (self.dpms && other.dpms) || (self.primary && other.primary) || (
        self.scale && other.scale) || (self.subpixel_hinting && other.subpixel_hinting) || (
        self.transform && other.transform) || (self.current_workspace && other.current_workspace)
            || (self.modes && other.modes) || (self.current_mode && other.current_mode) || (
        self.rect && other.rect) || (self.focus && other.focus) || (self.focused && other.focused)
    }

    /// A flag of the identity subset {make, model, serial} is set: the slot
    /// is occupied by what is effectively a different physical device.
    pub open spec fn spec_identity_touched(self) -> bool {
        self.make || self.model || self.serial
    }

    /// The mask with no flag set.
    pub fn none() -> (r: DeltaBits)
        ensures
            r.spec_empty(),
    {
        DeltaBits {
            id: false,
            name: false,
            make: false,
            model: false,
            serial: false,
            active: false,
            dpms: false,
            primary: false,
            scale: false,
            subpixel_hinting: false,
            transform: false,
            current_workspace: false,
            modes: false,
            current_mode: false,
            rect: false,
            focus: false,
            focused: false,
        }
    }

    pub fn is_empty(&self) -> (r: bool)
        ensures
            r == self.spec_empty(),
    {
        !self.id && !self.name && !self.make && !self.model && !self.serial && !self.active
            && !self.dpms && !self.primary && !self.scale && !self.subpixel_hinting
            && !self.transform && !self.current_workspace && !self.modes && !self.current_mode
            && !self.rect && !self.focus && !self.focused
    }

    pub fn intersects(&self, other: &DeltaBits) -> (r: bool)
        ensures
            r == self.spec_intersects(*other),
    {
        (self.id && other.id) || (self.name && other.name) || (self.make && other.make) || (
        self.model && other.model) || (self.serial && other.serial) || (self.active
            && other.active) || (self.dpms && other.dpms) || (self.primary && other.primary) || (
        self.scale && other.scale) || (self.subpixel_hinting && other.subpixel_hinting) || (
        self.transform && other.transform) || (self.current_workspace && other.current_workspace)
            || (self.modes && other.modes) || (self.current_mode && other.current_mode) || (
        self.rect && other.rect) || (self.focus && other.focus) || (self.focused && other.focused)
    }
}

/// The set of attributes found to differ between two snapshots of one output.
#[derive(Clone, Copy, Debug, PartialEq, Eq, Structural)]
pub struct OutputDelta(pub DeltaBits);

impl OutputDelta {
    /// True when none of the identity attributes (make, model, serial)
    /// changed, i.e. the slot still holds the same physical device.
    pub fn same_specs(&self) -> (r: bool)
        ensures
            r == !self.0.spec_identity_touched(),
    {
        !self.0.make && !self.0.model && !self.0.serial
    }

    /// True when at least one attribute changed.
    pub fn is_some(&self) -> (r: bool)
        ensures
            r == !self.0.spec_empty(),
    {
        !self.0.is_empty()
    }

    /// Compare two snapshots of one output attribute by attribute. Every
    /// attribute is compared independently, by value equality; the result
    /// has exactly the flags of the differing attributes set.
    pub fn between(o: &Output, n: &Output) -> (r: OutputDelta)
        ensures
            r.0 == delta_of(o@, n@),
    {
        OutputDelta(
            DeltaBits {
                id: !opt_i64_eq(&o.id, &n.id),
                name: !str_eq(&o.name, &n.name),
                make: !str_eq(&o.make, &n.make),
                model: !str_eq(&o.model, &n.model),
                serial: !str_eq(&o.serial, &n.serial),
                active: o.active != n.active,
                dpms: o.dpms != n.dpms,
                primary: o.primary != n.primary,
                scale: !opt_u64_eq(&o.scale, &n.scale),
                subpixel_hinting: !opt_str_eq(&o.subpixel_hinting, &n.subpixel_hinting),
                transform: !opt_str_eq(&o.transform, &n.transform),
                current_workspace: !opt_str_eq(&o.current_workspace, &n.current_workspace),
                modes: !modes_eq(&o.modes, &n.modes),
                current_mode: !opt_mode_eq(&o.current_mode, &n.current_mode),
                rect: !rect_eq(&o.rect, &n.rect),
                focus: !ids_eq(&o.focus, &n.focus),
                focused: o.focused != n.focused,
            },
        )
    }
}

/// The flags of exactly the attributes on which the two views disagree.
pub open spec fn delta_of(o: OutputV, n: OutputV) -> DeltaBits {
    DeltaBits {
        id: o.id != n.id,
        name: o.name != n.name,
        make: o.make != n.make,
        model: o.model != n.model,
        serial: o.serial != n.serial,
        active: o.active != n.active,
        dpms: o.dpms != n.dpms,
        primary: o.primary != n.primary,
        scale: o.scale != n.scale,
        subpixel_hinting: o.subpixel_hinting != n.subpixel_hinting,
        transform: o.transform != n.transform,
        current_workspace: o.current_workspace != n.current_workspace,
        modes: o.modes != n.modes,
        current_mode: o.current_mode != n.current_mode,
        rect: o.rect != n.rect,
        focus: o.focus != n.focus,
        focused: o.focused != n.focused,
    }
}

/// Names of the compared output attributes, used to state which single
/// attribute two snapshots differ in.
#[derive(Clone, Copy, Debug, PartialEq, Eq, Structural)]
pub enum Attribute {
    Id,
    Name,
    Make,
    Model,
    Serial,
    Active,
    Dpms,
    Primary,
    Scale,
    SubpixelHinting,
    Transform,
    CurrentWorkspace,
    Modes,
    CurrentMode,
    Rect,
    Focus,
    Focused,
}

/// The two views disagree on the given attribute.
pub open spec fn attr_differs(o: OutputV, n: OutputV, a: Attribute) -> bool {
    match a {
        Attribute::Id => o.id != n.id,
        Attribute::Name => o.name != n.name,
        Attribute::Make => o.make != n.make,
        Attribute::Model => o.model != n.model,
        Attribute::Serial => o.serial != n.serial,
        Attribute::Active => o.active != n.active,
        Attribute::Dpms => o.dpms != n.dpms,
        Attribute::Primary => o.primary != n.primary,
        Attribute::Scale => o.scale != n.scale,
        Attribute::SubpixelHinting => o.subpixel_hinting != n.subpixel_hinting,
        Attribute::Transform => o.transform != n.transform,
        Attribute::CurrentWorkspace => o.current_workspace != n.current_workspace,
        Attribute::Modes => o.modes != n.modes,
        Attribute::CurrentMode => o.current_mode != n.current_mode,
        Attribute::Rect => o.rect != n.rect,
        Attribute::Focus => o.focus != n.focus,
        Attribute::Focused => o.focused != n.focused,
    }
}

/// The mask with exactly the given attribute's flag set.
pub open spec fn single_attribute_mask(a: Attribute) -> DeltaBits {
    DeltaBits {
        id: a == Attribute::Id,
        name: a == Attribute::Name,
        make: a == Attribute::Make,
        model: a == Attribute::Model,
        serial: a == Attribute::Serial,
        active: a == Attribute::Active,
        dpms: a == Attribute::Dpms,
        primary: a == Attribute::Primary,
        scale: a == Attribute::Scale,
        subpixel_hinting: a == Attribute::SubpixelHinting,
        transform: a == Attribute::Transform,
        current_workspace: a == Attribute::CurrentWorkspace,
        modes: a == Attribute::Modes,
        current_mode: a == Attribute::CurrentMode,
        rect: a == Attribute::Rect,
        focus: a == Attribute::Focus,
        focused: a == Attribute::Focused,
    }
}

/// Two snapshots that differ in exactly one attribute get a delta with
/// exactly that attribute's flag set and no other.
pub proof fn lemma_diff_single_attribute(o: OutputV, n: OutputV, a: Attribute)
    requires
        attr_differs(o, n, a),
        forall|b: Attribute| b != a ==> !(#[trigger] attr_differs(o, n, b)),
    ensures
        delta_of(o, n) == single_attribute_mask(a),
{
    assert(a != Attribute::Id ==> !attr_differs(o, n, Attribute::Id));
    assert(a != Attribute::Name ==> !attr_differs(o, n, Attribute::Name));
    assert(a != Attribute::Make ==> !attr_differs(o, n, Attribute::Make));
    assert(a != Attribute::Model ==> !attr_differs(o, n, Attribute::Model));
    assert(a != Attribute::Serial ==> !attr_differs(o, n, Attribute::Serial));
    assert(a != Attribute::Active ==> !attr_differs(o, n, Attribute::Active));
    assert(a != Attribute::Dpms ==> !attr_differs(o, n, Attribute::Dpms));
    assert(a != Attribute::Primary ==> !attr_differs(o, n, Attribute::Primary));
    assert(a != Attribute::Scale ==> !attr_differs(o, n, Attribute::Scale));
    assert(a != Attribute::SubpixelHinting ==> !attr_differs(o, n, Attribute::SubpixelHinting));
    assert(a != Attribute::Transform ==> !attr_differs(o, n, Attribute::Transform));
    assert(a != Attribute::CurrentWorkspace ==> !attr_differs(
        o,
        n,
        Attribute::CurrentWorkspace,
    ));
    assert(a != Attribute::Modes ==> !attr_differs(o, n, Attribute::Modes));
    assert(a != Attribute::CurrentMode ==> !attr_differs(o, n, Attribute::CurrentMode));
    assert(a != Attribute::Rect ==> !attr_differs(o, n, Attribute::Rect));
    assert(a != Attribute::Focus ==> !attr_differs(o, n, Attribute::Focus));
    assert(a != Attribute::Focused ==> !attr_differs(o, n, Attribute::Focused));
}

} // verus!
