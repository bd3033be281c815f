//! The output snapshot model: one immutable record per connected display
//! output, as returned by a compositor query, together with its
//! mathematical view and the field-comparison helpers the diff needs.
use vstd::prelude::*;

verus! {

/// A display mode: resolution and refresh rate.
#[derive(Clone, Copy, Debug, PartialEq, Eq, Structural)]
pub struct Mode {
    pub width: i32,
    pub height: i32,
    pub refresh: i32,
}

/// The bounds of an output: position and size.
#[derive(Clone, Copy, Debug, PartialEq, Eq, Structural)]
pub struct Rect {
    pub x: i32,
    pub y: i32,
    pub width: i32,
    pub height: i32,
}

/// Mathematical view of an [`Output`]: strings become character sequences,
/// vectors become sequences; everything else is already a plain value.
#[verifier::ext_equal]
pub struct OutputV {
    pub id: Option<i64>,
    pub name: Seq<char>,
    pub make: Seq<char>,
    pub model: Seq<char>,
    pub serial: Seq<char>,
    pub active: bool,
    pub dpms: bool,
    pub primary: bool,
    pub scale: Option<u64>,
    pub subpixel_hinting: Option<Seq<char>>,
    pub transform: Option<Seq<char>>,
    pub current_workspace: Option<Seq<char>>,
    pub modes: Seq<Mode>,
    pub current_mode: Option<Mode>,
    pub rect: Rect,
    pub focus: Seq<i64>,
    pub focused: bool,
}

pub open spec fn opt_string_view(o: Option<String>) -> Option<Seq<char>> {
    match o {
        Some(s) => Some(s@),
        None => None,
    }
}

/// One snapshot of a display output. The identifier may be absent; such
/// outputs are invisible to the registry. The scale factor is carried as
/// an opaque bit pattern: the engine only ever compares it for equality.
#[derive(Debug)]
pub struct Output {
    pub id: Option<i64>,
    pub name: String,
    pub make: String,
    pub model: String,
    pub serial: String,
    pub active: bool,
    pub dpms: bool,
    pub primary: bool,
    pub scale: Option<u64>,
    pub subpixel_hinting: Option<String>,
    pub transform: Option<String>,
    pub current_workspace: Option<String>,
    pub modes: Vec<Mode>,
    pub current_mode: Option<Mode>,
    pub rect: Rect,
    pub focus: Vec<i64>,
    pub focused: bool,
}

impl View for Output {
    type V = OutputV;

    open spec fn view(&self) -> OutputV {
        OutputV {
            id: self.id,
            name: self.name@,
            make: self.make@,
            model: self.model@,
            serial: self.serial@,
            active: self.active,
            dpms: self.dpms,
            primary: self.primary,
            scale: self.scale,
            subpixel_hinting: opt_string_view(self.subpixel_hinting),
            transform: opt_string_view(self.transform),
            current_workspace: opt_string_view(self.current_workspace),
            modes: self.modes@,
            current_mode: self.current_mode,
            rect: self.rect,
            focus: self.focus@,
            focused: self.focused,
        }
    }
}

fn clone_opt_string(o: &Option<String>) -> (r: Option<String>)
    ensures
        opt_string_view(r) == opt_string_view(*o),
{
    match o {
        Some(s) => Some(s.clone()),
        None => None,
    }
}

fn clone_modes(v: &Vec<Mode>) -> (r: Vec<Mode>)
    ensures
        r@ == v@,
{
    let mut r: Vec<Mode> = Vec::new();
    let mut i: usize = 0;
    while i < v.len()
        invariant
            i <= v.len(),
            r@ == v@.take(i as int),
        decreases v.len() - i,
    {
        r.push(v[i]);
        proof {
            assert(v@.take(i as int + 1) =~= v@.take(i as int).push(v@[i as int]));
        }
        i += 1;
    }
    proof {
        assert(v@.take(v@.len() as int) =~= v@);
    }
    r
}

fn clone_ids(v: &Vec<i64>) -> (r: Vec<i64>)
    ensures
        r@ == v@,
{
    let mut r: Vec<i64> = Vec::new();
    let mut i: usize = 0;
    while i < v.len()
        invariant
            i <= v.len(),
            r@ == v@.take(i as int),
        decreases v.len() - i,
    {
        r.push(v[i]);
        proof {
            assert(v@.take(i as int + 1) =~= v@.take(i as int).push(v@[i as int]));
        }
        i += 1;
    }
    proof {
        assert(v@.take(v@.len() as int) =~= v@);
    }
    r
}

pub fn modes_eq(a: &Vec<Mode>, b: &Vec<Mode>) -> (r: bool)
    ensures
        r == (a@ == b@),
{
    if a.len() != b.len() {
        return false;
    }
    let mut i: usize = 0;
    while i < a.len()
        invariant
            i <= a.len(),
            a@.len() == b@.len(),
            forall|j: int| 0 <= j < i ==> a@[j] == b@[j],
        decreases a.len() - i,
    {
        if a[i] != b[i] {
            return false;
        }
        i += 1;
    }
    proof {
        assert(a@ =~= b@);
    }
    true
}

pub fn ids_eq(a: &Vec<i64>, b: &Vec<i64>) -> (r: bool)
    ensures
        r == (a@ == b@),
{
    if a.len() != b.len() {
        return false;
    }
    let mut i: usize = 0;
    while i < a.len()
        invariant
            i <= a.len(),
            a@.len() == b@.len(),
            forall|j: int| 0 <= j < i ==> a@[j] == b@[j],
        decreases a.len() - i,
    {
        if a[i] != b[i] {
            return false;
        }
        i += 1;
    }
    proof {
        assert(a@ =~= b@);
    }
    true
}

pub fn str_eq(a: &String, b: &String) -> (r: bool)
    ensures
        r == (a@ == b@),
{
    *a == *b
}

pub fn rect_eq(a: &Rect, b: &Rect) -> (r: bool)
    ensures
        r == (*a == *b),
{
    *a == *b
}

pub fn opt_str_eq(a: &Option<String>, b: &Option<String>) -> (r: bool)
    ensures
        r == (opt_string_view(*a) == opt_string_view(*b)),
{
    match (a, b) {
        (Some(x), Some(y)) => *x == *y,
        (None, None) => true,
        _ => false,
    }
}

pub fn opt_i64_eq(a: &Option<i64>, b: &Option<i64>) -> (r: bool)
    ensures
        r == (*a == *b),
{
    match (a, b) {
        (Some(x), Some(y)) => *x == *y,
        (None, None) => true,
        _ => false,
    }
}

pub fn opt_u64_eq(a: &Option<u64>, b: &Option<u64>) -> (r: bool)
    ensures
        r == (*a == *b),
{
    match (a, b) {
        (Some(x), Some(y)) => *x == *y,
        (None, None) => true,
        _ => false,
    }
}

pub fn opt_mode_eq(a: &Option<Mode>, b: &Option<Mode>) -> (r: bool)
    ensures
        r == (*a == *b),
{
    match (a, b) {
        (Some(x), Some(y)) => *x == *y,
        (None, None) => true,
        _ => false,
    }
}

impl Output {
    /// A field-by-field copy whose view is the same as the original's.
    pub fn duplicate(&self) -> (r: Output)
        ensures
            r@ == self@,
    {
        Output {
            id: self.id,
            name: self.name.clone(),
            make: self.make.clone(),
            model: self.model.clone(),
            serial: self.serial.clone(),
            active: self.active,
            dpms: self.dpms,
            primary: self.primary,
            scale: self.scale,
            subpixel_hinting: clone_opt_string(&self.subpixel_hinting),
            transform: clone_opt_string(&self.transform),
            current_workspace: clone_opt_string(&self.current_workspace),
            modes: clone_modes(&self.modes),
            current_mode: self.current_mode,
            rect: self.rect,
            focus: clone_ids(&self.focus),
            focused: self.focused,
        }
    }
}

} // verus!
