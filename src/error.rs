use vstd::prelude::*;

verus! {

/// What can go wrong while the library reshapes a document.
#[derive(Debug, Clone, Copy, PartialEq, Eq, Structural)]
pub enum ContentError {
    /// An object has a `sys` member without a `type` inside it.
    MissingSysType,
    /// An object's `sys.type` is neither an entry nor a link, and it is not
    /// a rich-text document.
    UnsupportedNode,
    /// An entry has no `fields` member holding an object.
    MalformedEntry,
    /// An asset has no `fields` member holding an object.
    MalformedAsset,
    /// A link's `sys.linkType` names neither entries nor assets.
    UnknownLinkType,
    /// A result page whose `items` member is not an array.
    ItemsNotArray,
    /// A value that must be an object is not.
    NotAnObject,
    /// A field to spread over locales holds an array or an object.
    NestedValue,
    /// A field has no value for the requested locale.
    MissingLocale,
    /// An update names no version of the entry it replaces.
    MissingVersion,
    /// The service answered with a status that the call does not expect.
    UnexpectedStatus(u16),
}

} // verus!
