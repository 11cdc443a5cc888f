//! The description of a struct or enum from which `Encode` and `Decode`
//! implementations are derived, and the rules that such a description obeys.
//!
//! Derived implementations encode a struct as its fields in declaration
//! order, and an enum as the index of its variant (one byte) followed by the
//! variant's fields; this is why an enum must have between 1 and 255
//! variants.
use vstd::prelude::*;

verus! {

/// The type a derive is applied to.
pub struct Input {
    pub attrs: InputAttrs,
    /// The type's name.
    pub ident: String,
    pub generics: Generics,
    pub data: Data,
}

/// A type's generic parameters, split as an impl block for the type needs
/// them, each as source text.
pub struct Generics {
    /// The parameters that the impl declares, such as `<'a, T: Clone>`, or
    /// nothing.
    pub impl_generics: String,
    /// The arguments that follow the type's name, such as `<'a, T>`, or
    /// nothing.
    pub ty_generics: String,
    /// The `where` clause, or nothing.
    pub where_clause: String,
}

/// The options given in `#[sio2(...)]` attributes.
pub struct InputAttrs {
    /// `#[sio2(crate(::silica))]`: the path of the crate that generated code
    /// refers to.
    pub krate: Option<String>,
    /// `#[sio2(borrow('buf))]`: the lifetime of the input buffer that decoded
    /// fields may borrow from.
    pub borrow: Option<String>,
}

pub enum Data {
    Struct(Struct),
    Enum(Enum),
}

pub struct Struct {
    pub fields: Fields,
}

pub struct Enum {
    pub variants: Variants,
}

/// Always contains between 1 and 255 (inclusive) variants.
pub struct Variants(pub Vec<Variant>);

pub struct Variant {
    pub ident: String,
    pub fields: Fields,
}

pub enum Fields {
    Named(Vec<NamedField>),
    Unnamed(Vec<UnnamedField>),
    Unit,
}

pub struct NamedField {
    pub ident: String,
}

pub struct UnnamedField;

/// The shape of a type as declared, before it is checked.
pub enum Shape {
    Struct(Fields),
    Enum(Vec<Variant>),
    Union,
}

/// Why a type cannot have `Encode` or `Decode` derived.
#[derive(Debug, Clone, Copy, PartialEq, Eq, Structural)]
pub enum IrError {
    /// The type is a union.
    Union,
    /// The enum has no variants.
    NoVariants,
    /// The enum has more than 255 variants.
    TooManyVariants,
}

impl IrError {
    /// The text of the message reported to the user.
    pub open spec fn spec_message(&self) -> Seq<char> {
        match self {
            IrError::Union => "unions are not supported"@,
            IrError::NoVariants => "enums must have at least 1 variant"@,
            IrError::TooManyVariants => "enums cannot have more than 255 variants"@,
        }
    }

    /// The message reported to the user.
    pub fn message(&self) -> (s: &'static str)
        ensures
            s@ == self.spec_message(),
    {
        match self {
            IrError::Union => "unions are not supported",
            IrError::NoVariants => "enums must have at least 1 variant",
            IrError::TooManyVariants => "enums cannot have more than 255 variants",
        }
    }
}

/// The largest number of variants an enum may have: discriminants are one
/// byte.
pub const MAX_VARIANTS: usize = 255;

impl Variants {
    /// The variants are well-formed: at least one, at most [`MAX_VARIANTS`].
    pub open spec fn wf(&self) -> bool {
        1 <= self.0@.len() <= MAX_VARIANTS
    }

    /// Checks the number of variants.
    pub fn from_variants(variants: Vec<Variant>) -> (r: Result<Variants, IrError>)
        ensures
            variants@.len() == 0 ==> r == Err::<Variants, IrError>(IrError::NoVariants),
            variants@.len() > MAX_VARIANTS ==> r == Err::<Variants, IrError>(
                IrError::TooManyVariants,
            ),
            1 <= variants@.len() <= MAX_VARIANTS ==> (r matches Ok(v) && v.0@ == variants@),
    {
        let n = variants.len();
        if n == 0 {
            Err(IrError::NoVariants)
        } else if n <= MAX_VARIANTS {
            Ok(Variants(variants))
        } else {
            Err(IrError::TooManyVariants)
        }
    }

    /// The discriminant byte of the variant at `index`: its position.
    pub fn discriminant(&self, index: usize) -> (d: u8)
        requires
            self.wf(),
            index < self.0@.len(),
        ensures
            d == index,
    {
        index as u8
    }

    /// The position of the variant whose discriminant is `d`, if any.
    pub fn variant_of(&self, d: u8) -> (r: Option<usize>)
        requires
            self.wf(),
        ensures
            (d as int) < self.0@.len() ==> r == Some(d as usize),
            (d as int) >= self.0@.len() ==> r is None,
    {
        if (d as usize) < self.0.len() {
            Some(d as usize)
        } else {
            None
        }
    }
}

impl Data {
    /// An enum's variants are well-formed; a struct always is.
    pub open spec fn wf(&self) -> bool {
        match self {
            Data::Struct(_) => true,
            Data::Enum(e) => e.variants.wf(),
        }
    }

    /// Checks the declared shape of a type: unions are refused, and so are
    /// enums whose number of variants is not between 1 and 255.
    pub fn from_shape(shape: Shape) -> (r: Result<Data, IrError>)
        ensures
            shape is Union ==> r == Err::<Data, IrError>(IrError::Union),
            shape matches Shape::Struct(fs) ==> r == Ok::<Data, IrError>(
                Data::Struct(Struct { fields: fs }),
            ),
            shape matches Shape::Enum(vs) ==> match r {
                Ok(Data::Enum(e)) => 1 <= vs@.len() <= MAX_VARIANTS && e.variants.0@ == vs@,
                Ok(Data::Struct(_)) => false,
                Err(err) => (vs@.len() == 0 && err == IrError::NoVariants) || (vs@.len()
                    > MAX_VARIANTS && err == IrError::TooManyVariants),
            },
    {
        match shape {
            Shape::Struct(fields) => Ok(Data::Struct(Struct { fields })),
            Shape::Enum(variants) => match Variants::from_variants(variants) {
                Ok(variants) => Ok(Data::Enum(Enum { variants })),
                Err(e) => Err(e),
            },
            Shape::Union => Err(IrError::Union),
        }
    }
}

/// Whether an attribute whose path is the single identifier `name` holds
/// options for the derives: only `#[sio2(...)]` does.
pub fn is_options_attribute(name: &String) -> (r: bool)
    ensures
        r == (name@ == "sio2"@),
{
    *name == String::from_str("sio2")
}

/// The name of an option in a `#[sio2(...)]` attribute, which decides how
/// the rest of the option is read.
#[derive(Debug, Clone, Copy, PartialEq, Eq, Structural)]
pub enum OptionName {
    /// `crate`: a path follows, in parentheses.
    Crate,
    /// `borrow`: a lifetime follows, in parentheses.
    Borrow,
    /// Any other name: the option is ignored.
    Other,
}

impl OptionName {
    /// The option that `name` names.
    pub fn of(name: &String) -> (r: OptionName)
        ensures
            r == (if name@ == "crate"@ {
                OptionName::Crate
            } else if name@ == "borrow"@ {
                OptionName::Borrow
            } else {
                OptionName::Other
            }),
    {
        if *name == String::from_str("crate") {
            OptionName::Crate
        } else if *name == String::from_str("borrow") {
            OptionName::Borrow
        } else {
            OptionName::Other
        }
    }
}

/// One option found in a `#[sio2(...)]` attribute.
pub enum AttrOption {
    /// `crate(...)`, with the path given.
    Crate(String),
    /// `borrow(...)`, with the lifetime given.
    Borrow(String),
    /// Any other option, which is ignored.
    Other,
}

/// The path that the last `crate(...)` option among `options` gives.
pub open spec fn last_crate(options: Seq<AttrOption>) -> Option<Seq<char>>
    decreases options.len(),
{
    if options.len() == 0 {
        None
    } else {
        match options.last() {
            AttrOption::Crate(p) => Some(p@),
            _ => last_crate(options.drop_last()),
        }
    }
}

/// The lifetime that the last `borrow(...)` option among `options` gives.
pub open spec fn last_borrow(options: Seq<AttrOption>) -> Option<Seq<char>>
    decreases options.len(),
{
    if options.len() == 0 {
        None
    } else {
        match options.last() {
            AttrOption::Borrow(l) => Some(l@),
            _ => last_borrow(options.drop_last()),
        }
    }
}

/// The view of an optional string.
pub open spec fn opt_view(s: Option<String>) -> Option<Seq<char>> {
    match s {
        Some(s) => Some(s@),
        None => None,
    }
}

impl InputAttrs {
    /// The path that generated code names the crate by: the `crate(...)`
    /// option, or `::sio2`.
    pub open spec fn spec_krate(&self) -> Seq<char> {
        match self.krate {
            Some(k) => k@,
            None => "::sio2"@,
        }
    }

    /// The path that generated code names the crate by.
    pub fn krate_path(&self) -> (r: &str)
        ensures
            r@ == self.spec_krate(),
    {
        match &self.krate {
            Some(k) => k.as_str(),
            None => "::sio2",
        }
    }

    /// The lifetime of the input buffer in a derived `Decode` implementation:
    /// the `borrow(...)` option, or `'_`.
    pub open spec fn spec_borrow(&self) -> Seq<char> {
        match self.borrow {
            Some(b) => b@,
            None => "'_"@,
        }
    }

    /// The lifetime of the input buffer in a derived `Decode` implementation.
    pub fn borrow_lifetime(&self) -> (r: &str)
        ensures
            r@ == self.spec_borrow(),
    {
        match &self.borrow {
            Some(b) => b.as_str(),
            None => "'_",
        }
    }

    /// Collects the options of all `#[sio2(...)]` attributes, in order: a
    /// later `crate` or `borrow` option overrides an earlier one, and other
    /// options are ignored.
    pub fn from_options(options: Vec<AttrOption>) -> (r: InputAttrs)
        ensures
            opt_view(r.krate) == last_crate(options@),
            opt_view(r.borrow) == last_borrow(options@),
    {
        let mut krate: Option<String> = None;
        let mut borrow: Option<String> = None;
        let mut i: usize = 0;
        while i < options.len()
            invariant
                i <= options@.len(),
                opt_view(krate) == last_crate(options@.take(i as int)),
                opt_view(borrow) == last_borrow(options@.take(i as int)),
            decreases options@.len() - i,
        {
            assert(options@.take(i + 1).drop_last() =~= options@.take(i as int));
            match &options[i] {
                AttrOption::Crate(path) => {
                    krate = Some(path.clone());
                },
                AttrOption::Borrow(lifetime) => {
                    borrow = Some(lifetime.clone());
                },
                AttrOption::Other => {},
            }
            i = i + 1;
        }
        assert(options@.take(i as int) =~= options@);
        InputAttrs { krate, borrow }
    }
}

} // verus!
