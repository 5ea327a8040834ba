use vstd::prelude::*;
use crate::error::ConfigError;

verus! {

/// The shape of one field of a declared wrapper type. `A` stands for a
/// generic argument as the caller represents it.
pub enum FieldShape<A> {
    /// A type path; the generic arguments in angle brackets on its last
    /// segment, in order (none when it has no angle brackets).
    Path(Vec<A>),
    /// Any other kind of type.
    Other,
}

/// The shape of a declared wrapper type.
pub enum ItemShape<A> {
    /// A struct with unnamed fields, in order.
    TupleStruct(Vec<FieldShape<A>>),
    /// A struct with named fields, a unit struct, an enum or a union.
    Other,
}

/// One setting of a declaration block. `K` stands for a key expression as
/// the caller represents it.
pub enum Setting<K> {
    /// `keys(k0, k1, ...)`: declared keys, in order.
    Keys(Vec<K>),
    /// `crate_name = "..."`: the namespace of the error and values types.
    CrateName(String),
    /// `infallible = true|false`: selects the infallible access mode.
    Infallible(bool),
    /// Anything else, which has no effect.
    Ignored,
}

/// A resolved declaration: what a wrapper type's accessors are built from.
pub struct Declaration<K, A> {
    /// The declared keys; the i-th one addresses slot i.
    pub keys: Vec<K>,
    /// The namespace of the error and values types.
    pub crate_name: String,
    /// Whether the infallible access mode is selected (else strict).
    pub infallible: bool,
    /// The container's key type argument.
    pub key_type: A,
    /// The container's value type argument.
    pub value_type: A,
}

/// The key and value type arguments of the container that `shape` wraps,
/// when `shape` is a single unnamed field whose type path ends in exactly
/// two generic arguments.
pub open spec fn wrapped_args<A>(shape: ItemShape<A>) -> Option<(A, A)> {
    match shape {
        ItemShape::TupleStruct(fields) => {
            if fields@.len() == 1 {
                match fields@[0] {
                    FieldShape::Path(args) => {
                        if args@.len() == 2 {
                            Some((args@[0], args@[1]))
                        } else {
                            None
                        }
                    },
                    FieldShape::Other => None,
                }
            } else {
                None
            }
        },
        ItemShape::Other => None,
    }
}

/// All keys of all `keys(...)` settings, in order.
pub open spec fn all_keys<K>(settings: Seq<Setting<K>>) -> Seq<K>
    decreases settings.len(),
{
    if settings.len() == 0 {
        Seq::empty()
    } else {
        let rest = all_keys(settings.drop_first());
        match settings[0] {
            Setting::Keys(ks) => ks@ + rest,
            _ => rest,
        }
    }
}

/// The first `crate_name` setting, if any.
pub open spec fn first_crate_name<K>(settings: Seq<Setting<K>>) -> Option<Seq<char>>
    decreases settings.len(),
{
    if settings.len() == 0 {
        None
    } else {
        match settings[0] {
            Setting::CrateName(n) => Some(n@),
            _ => first_crate_name(settings.drop_first()),
        }
    }
}

/// The first `infallible` setting, if any.
pub open spec fn first_infallible<K>(settings: Seq<Setting<K>>) -> Option<bool>
    decreases settings.len(),
{
    if settings.len() == 0 {
        None
    } else {
        match settings[0] {
            Setting::Infallible(b) => Some(b),
            _ => first_infallible(settings.drop_first()),
        }
    }
}

/// The namespace used when no `crate_name` setting is given.
pub open spec fn default_crate_name() -> Seq<char> {
    "fast_map"@
}

/// The key and value type arguments of the wrapped container, or
/// `NotAContainerWrapper` when `shape` is not a single unnamed field whose
/// type path ends in exactly two generic arguments.
pub fn container_args<A>(shape: ItemShape<A>) -> (r: Result<(A, A), ConfigError>)
    ensures
        match wrapped_args(shape) {
            Some(args) => r == Ok::<(A, A), ConfigError>(args),
            None => r == Err::<(A, A), ConfigError>(ConfigError::NotAContainerWrapper),
        },
{
    match shape {
        ItemShape::TupleStruct(mut fields) => {
            if fields.len() != 1 {
                return Err(ConfigError::NotAContainerWrapper);
            }
            match fields.pop() {
                Some(FieldShape::Path(mut args)) => {
                    if args.len() != 2 {
                        return Err(ConfigError::NotAContainerWrapper);
                    }
                    let ghost pair = (args@[0], args@[1]);
                    match (args.pop(), args.pop()) {
                        (Some(value_type), Some(key_type)) => {
                            assert((key_type, value_type) == pair);
                            Ok((key_type, value_type))
                        },
                        _ => Err(ConfigError::NotAContainerWrapper),
                    }
                },
                _ => Err(ConfigError::NotAContainerWrapper),
            }
        },
        ItemShape::Other => Err(ConfigError::NotAContainerWrapper),
    }
}

/// Resolves a declaration: the wrapped container's type arguments (see
/// `container_args`), the keys of every `keys(...)` setting in order, the
/// first `crate_name` (default `fast_map`) and the first `infallible`
/// (default `false`).
pub fn declare<K, A>(shape: ItemShape<A>, settings: Vec<Setting<K>>) -> (r: Result<
    Declaration<K, A>,
    ConfigError,
>)
    ensures
        r is Ok <==> wrapped_args(shape) is Some,
        r is Err ==> r->Err_0 == ConfigError::NotAContainerWrapper,
        r is Ok ==> {
            let d = r->Ok_0;
            &&& (d.key_type, d.value_type) == wrapped_args(shape)->0
            &&& d.keys@ == all_keys(settings@)
            &&& d.crate_name@ == match first_crate_name(settings@) {
                Some(n) => n,
                None => default_crate_name(),
            }
            &&& d.infallible == match first_infallible(settings@) {
                Some(b) => b,
                None => false,
            }
        },
{
    let (key_type, value_type) = match container_args(shape) {
        Ok(args) => args,
        Err(e) => {
            return Err(e);
        },
    };
    let mut rest = settings;
    let mut keys: Vec<K> = Vec::new();
    let mut crate_name: Option<String> = None;
    let mut infallible: Option<bool> = None;
    while rest.len() > 0
        invariant
            keys@ + all_keys(rest@) == all_keys(settings@),
            match crate_name {
                Some(n) => first_crate_name(settings@) == Some(n@),
                None => first_crate_name(settings@) == first_crate_name(rest@),
            },
            match infallible {
                Some(b) => first_infallible(settings@) == Some(b),
                None => first_infallible(settings@) == first_infallible(rest@),
            },
        decreases rest@.len(),
    {
        let ghost before = rest@;
        let setting = rest.remove(0);
        assert(rest@ =~= before.drop_first());
        match setting {
            Setting::Keys(mut ks) => {
                keys.append(&mut ks);
                assert(keys@ + all_keys(rest@) =~= all_keys(settings@));
            },
            Setting::CrateName(n) => {
                if crate_name.is_none() {
                    crate_name = Some(n);
                }
            },
            Setting::Infallible(b) => {
                if infallible.is_none() {
                    infallible = Some(b);
                }
            },
            Setting::Ignored => {},
        }
    }
    let crate_name = match crate_name {
        Some(n) => n,
        None => "fast_map".to_owned(),
    };
    let infallible = match infallible {
        Some(b) => b,
        None => false,
    };
    Ok(Declaration { keys, crate_name, infallible, key_type, value_type })
}

} // verus!
