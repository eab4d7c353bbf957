//! The decisions of the code generators: which type an endpoint returns, and
//! whether a router declaration can be turned into a router.
use vstd::prelude::*;
use crate::naming::{route_path, snake_case};

verus! {

/// The kind of one generic argument of a path segment.
pub enum GenericArgKind {
    /// A type, such as `i32` in `Result<i32>`.
    Type,
    /// A lifetime, constant, binding or constraint.
    Other,
}

/// The arguments of one path segment.
pub enum PathArgs {
    /// No arguments (bare), as in `anyhow` of `anyhow::Result<i32>`.
    Bare,
    /// `<..>`, with the kinds of its arguments in order.
    AngleBracketed(Vec<GenericArgKind>),
    /// `(..) -> ..`, as in `Fn(A) -> B`.
    Parenthesized,
}

/// The shape of a type, as far as the return type of an endpoint is read.
pub enum TypeShape {
    /// A path type, with the arguments of each of its segments in order.
    Path(Vec<PathArgs>),
    /// Any other type (a tuple, a reference, ...).
    Other,
}

/// Why the inner type of a return type cannot be found.
#[derive(PartialEq, Eq, Structural, Clone, Copy, Debug)]
pub enum InnerTypeError {
    NotAPath,
    NoSegment,
    UnexpectedPathArguments,
    NoGenericArgument,
    NonTypeArgument,
}

/// Where the inner type of `t` is: `Ok` when it is the first generic argument
/// of the path's last segment (the one that names the type, as `Result` in
/// `anyhow::Result<i32>`), which must be a type.
pub open spec fn inner_type_spec(t: TypeShape) -> Result<(), InnerTypeError> {
    match t {
        TypeShape::Other => Err(InnerTypeError::NotAPath),
        TypeShape::Path(segs) => if segs@.len() == 0 {
            Err(InnerTypeError::NoSegment)
        } else {
            match segs@[segs@.len() - 1] {
                PathArgs::AngleBracketed(args) => if args@.len() == 0 {
                    Err(InnerTypeError::NoGenericArgument)
                } else if args@[0] is Type {
                    Ok(())
                } else {
                    Err(InnerTypeError::NonTypeArgument)
                },
                _ => Err(InnerTypeError::UnexpectedPathArguments),
            }
        },
    }
}

/// Decides whether the value type of an endpoint's return type `t` (such as
/// `i32` in `anyhow::Result<i32>`) can be read: it is the first generic
/// argument of the path's last segment. Where the generator cannot read it,
/// it stops with a panic; the error returned here carries that panic's
/// message (`message`), and the generator panics with it.
pub fn get_inner_type(t: &TypeShape) -> (res: Result<(), InnerTypeError>)
    ensures
        res == inner_type_spec(*t),
        res is Ok <==> (*t matches TypeShape::Path(segs) && segs@.len() > 0 && (segs@[segs@.len()
            - 1] matches PathArgs::AngleBracketed(args) && args@.len() > 0 && args@[0] is Type)),
        (*t is Other) <==> res == Err::<(), InnerTypeError>(InnerTypeError::NotAPath),
{
    match t {
        TypeShape::Other => Err(InnerTypeError::NotAPath),
        TypeShape::Path(segs) => {
            if segs.len() == 0 {
                return Err(InnerTypeError::NoSegment);
            }
            match &segs[segs.len() - 1] {
                PathArgs::AngleBracketed(args) => {
                    if args.len() == 0 {
                        Err(InnerTypeError::NoGenericArgument)
                    } else {
                        match &args[0] {
                            GenericArgKind::Type => Ok(()),
                            GenericArgKind::Other => Err(InnerTypeError::NonTypeArgument),
                        }
                    }
                },
                _ => Err(InnerTypeError::UnexpectedPathArguments),
            }
        },
    }
}

/// The value type is found exactly when the last path segment's first
/// generic argument is a type, however many arguments follow it (so
/// `Result<i32, anyhow::Error>` yields `i32`); a last segment without angle
/// brackets has none, and a first argument that is not a type is refused.
pub proof fn law_inner_type_first_argument(t: TypeShape, segs: Vec<PathArgs>)
    requires
        t == TypeShape::Path(segs),
        segs@.len() > 0,
    ensures
        segs@[segs@.len() - 1] matches PathArgs::AngleBracketed(args) ==> (args@.len() > 0
            ==> (inner_type_spec(t) is Ok <==> args@[0] is Type)),
        segs@[segs@.len() - 1] matches PathArgs::AngleBracketed(args) ==> (args@.len() > 0
            && !(args@[0] is Type) ==> inner_type_spec(t) == Err::<(), InnerTypeError>(
            InnerTypeError::NonTypeArgument,
        )),
        !(segs@[segs@.len() - 1] is AngleBracketed) ==> inner_type_spec(t) == Err::<(), InnerTypeError>(
            InnerTypeError::UnexpectedPathArguments,
        ),
{
}

/// The message of each failure to find the inner type.
pub open spec fn inner_type_error_text(e: InnerTypeError) -> Seq<char> {
    match e {
        InnerTypeError::NotAPath => "Cant get inner type of non-path"@,
        InnerTypeError::UnexpectedPathArguments => "Unexpected path arguments"@,
        InnerTypeError::NonTypeArgument => "Unexpected non-type generic argument"@,
        InnerTypeError::NoSegment | InnerTypeError::NoGenericArgument =>
            "called `Option::unwrap()` on a `None` value"@,
    }
}

impl InnerTypeError {
    /// The failure's message.
    pub fn message(&self) -> (res: String)
        ensures
            res@ == inner_type_error_text(*self),
    {
        match self {
            InnerTypeError::NotAPath => String::from_str("Cant get inner type of non-path"),
            InnerTypeError::UnexpectedPathArguments => String::from_str("Unexpected path arguments"),
            InnerTypeError::NonTypeArgument => String::from_str(
                "Unexpected non-type generic argument",
            ),
            InnerTypeError::NoSegment | InnerTypeError::NoGenericArgument => String::from_str(
                "called `Option::unwrap()` on a `None` value",
            ),
        }
    }
}

/// The state of an optional attribute of a router declaration.
pub enum AttrArg {
    Absent,
    /// Present, with an argument of the expected form.
    Valid,
    /// Present, with an argument of another form.
    Invalid,
}

/// One variant of a router declaration.
pub struct VariantDecl {
    pub name: String,
    /// Whether the variant has a field (the endpoint type).
    pub has_field: bool,
}

/// What the router generator reads of a declaration.
pub struct RouterDecl {
    /// Whether the declaration is an enum.
    pub is_enum: bool,
    /// `#[assets("..")]`: a string literal is expected. An argument of
    /// another form is not refused: the generator takes the text of its parse
    /// error as the folder, which fails when the router first runs.
    pub assets: AttrArg,
    /// `#[html(..)]`: an expression naming the page function is expected.
    /// An argument of another form is refused in the generated code, so it is
    /// reported after the other checks.
    pub html: AttrArg,
    pub variants: Vec<VariantDecl>,
}

/// Why a router declaration is refused.
#[derive(PartialEq, Eq, Structural, Clone, Copy, Debug)]
pub enum DeriveError {
    NotAnEnum,
    MissingAssets,
    /// The variant at this position has no endpoint field.
    NoEndpoint { variant: usize },
    HtmlNotFunction,
}

/// `res` is the verdict on `d`: the first failing check, in the order enum,
/// `assets` presence, variants in order, `html` form.
pub open spec fn derive_verdict(d: RouterDecl, res: Result<(), DeriveError>) -> bool {
    let fields_ok = forall|j: int| 0 <= j < d.variants@.len() ==> (#[trigger] d.variants@[j]).has_field;
    if !d.is_enum {
        res == Err::<(), DeriveError>(DeriveError::NotAnEnum)
    } else if d.assets is Absent {
        res == Err::<(), DeriveError>(DeriveError::MissingAssets)
    } else {
        match res {
            Ok(()) => fields_ok && !(d.html is Invalid),
            Err(DeriveError::NoEndpoint { variant }) => {
                &&& variant < d.variants@.len()
                &&& !d.variants@[variant as int].has_field
                &&& forall|j: int| 0 <= j < variant ==> (#[trigger] d.variants@[j]).has_field
            },
            Err(DeriveError::HtmlNotFunction) => fields_ok && d.html is Invalid,
            Err(_) => false,
        }
    }
}

/// Checks a router declaration before its router is generated. The
/// generator stops with a panic on a declaration that is not an enum; that
/// case is returned here as `NotAnEnum`, and the generator panics with its
/// message.
pub fn check_router(d: &RouterDecl) -> (res: Result<(), DeriveError>)
    ensures
        derive_verdict(*d, res),
{
    if !d.is_enum {
        return Err(DeriveError::NotAnEnum);
    }
    if let AttrArg::Absent = d.assets {
        return Err(DeriveError::MissingAssets);
    }
    let mut i: usize = 0;
    while i < d.variants.len()
        invariant
            i <= d.variants@.len(),
            d.is_enum,
            !(d.assets is Absent),
            forall|j: int| 0 <= j < i ==> (#[trigger] d.variants@[j]).has_field,
        decreases d.variants@.len() - i,
    {
        if !d.variants[i].has_field {
            return Err(DeriveError::NoEndpoint { variant: i });
        }
        i = i + 1;
    }
    if let AttrArg::Invalid = d.html {
        return Err(DeriveError::HtmlNotFunction);
    }
    Ok(())
}

/// The message of each refusal; `NoEndpoint` names the variant.
pub open spec fn derive_error_text(e: DeriveError, d: RouterDecl) -> Seq<char> {
    match e {
        DeriveError::NotAnEnum => "Router can only be implemented for enums"@,
        DeriveError::MissingAssets => "Missing #[assets()] attribute"@,
        DeriveError::NoEndpoint { variant } => "No endpoint specified for "@ + d.variants@[variant as int].name@,
        DeriveError::HtmlNotFunction => "HTML attribute should point to a function"@,
    }
}

/// The message of the refusal `e` of the declaration `d`.
pub fn derive_error_message(e: DeriveError, d: &RouterDecl) -> (res: String)
    requires
        e matches DeriveError::NoEndpoint { variant } ==> variant < d.variants@.len(),
    ensures
        res@ == derive_error_text(e, *d),
{
    match e {
        DeriveError::NotAnEnum => String::from_str("Router can only be implemented for enums"),
        DeriveError::MissingAssets => String::from_str("Missing #[assets()] attribute"),
        DeriveError::NoEndpoint { variant } => {
            let mut s = String::from_str("No endpoint specified for ");
            s.append(d.variants[variant].name.as_str());
            s
        },
        DeriveError::HtmlNotFunction => String::from_str("HTML attribute should point to a function"),
    }
}

/// The request path of each variant, in order: its name in snake_case.
pub fn variant_paths(d: &RouterDecl) -> (res: Vec<String>)
    ensures
        res@.len() == d.variants@.len(),
        forall|j: int| 0 <= j < res@.len() ==> (#[trigger] res@[j])@ == snake_case(d.variants@[j].name@),
{
    let mut res: Vec<String> = Vec::new();
    let mut i: usize = 0;
    while i < d.variants.len()
        invariant
            i <= d.variants@.len(),
            res@.len() == i,
            forall|j: int| 0 <= j < i ==> (#[trigger] res@[j])@ == snake_case(d.variants@[j].name@),
        decreases d.variants@.len() - i,
    {
        res.push(route_path(d.variants[i].name.as_str()));
        i = i + 1;
    }
    res
}

} // verus!
