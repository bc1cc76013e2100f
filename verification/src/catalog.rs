//! The Attribute Catalog: the fixed, ordered registry of highlight-category
//! names that the external engine is configured against.  The position of a
//! name in this list is its attribute index, the join key between engine
//! output and theme styling.

use vstd::prelude::*;

verus! {

/// Number of entries in the Attribute Catalog.
pub const ATTRIBUTE_COUNT: usize = 62;

/// The name of catalog entry `i`, as a sequence of characters.
/// Entries past the end of the catalog are given the last name, so that the
/// function is total; exec callers are held to `i < ATTRIBUTE_COUNT`.
#[verifier::opaque]
pub open spec fn attribute_name(i: int) -> Seq<char> {
    if i == 0 {
        "annotation"@
    } else if i == 1 {
        "attribute"@
    } else if i == 2 {
        "boolean"@
    } else if i == 3 {
        "character"@
    } else if i == 4 {
        "comment"@
    } else if i == 5 {
        "conditional"@
    } else if i == 6 {
        "constant"@
    } else if i == 7 {
        "constant.builtin"@
    } else if i == 8 {
        "constant.macro"@
    } else if i == 9 {
        "constructor"@
    } else if i == 10 {
        "error"@
    } else if i == 11 {
        "exception"@
    } else if i == 12 {
        "field"@
    } else if i == 13 {
        "float"@
    } else if i == 14 {
        "function"@
    } else if i == 15 {
        "function.builtin"@
    } else if i == 16 {
        "function.macro"@
    } else if i == 17 {
        "include"@
    } else if i == 18 {
        "keyword"@
    } else if i == 19 {
        "keyword.function"@
    } else if i == 20 {
        "keyword.operator"@
    } else if i == 21 {
        "label"@
    } else if i == 22 {
        "method"@
    } else if i == 23 {
        "namespace"@
    } else if i == 24 {
        "none"@
    } else if i == 25 {
        "number"@
    } else if i == 26 {
        "operator"@
    } else if i == 27 {
        "parameter"@
    } else if i == 28 {
        "parameter.reference"@
    } else if i == 29 {
        "property"@
    } else if i == 30 {
        "punctuation.delimiter"@
    } else if i == 31 {
        "punctuation.bracket"@
    } else if i == 32 {
        "punctuation.special"@
    } else if i == 33 {
        "repeat"@
    } else if i == 34 {
        "string"@
    } else if i == 35 {
        "string.regex"@
    } else if i == 36 {
        "string.escape"@
    } else if i == 37 {
        "symbol"@
    } else if i == 38 {
        "tag"@
    } else if i == 39 {
        "tag.delimiter"@
    } else if i == 40 {
        "text"@
    } else if i == 41 {
        "text.strong"@
    } else if i == 42 {
        "text.emphasis"@
    } else if i == 43 {
        "text.underline"@
    } else if i == 44 {
        "text.strike"@
    } else if i == 45 {
        "text.title"@
    } else if i == 46 {
        "text.literal"@
    } else if i == 47 {
        "text.uri"@
    } else if i == 48 {
        "text.math"@
    } else if i == 49 {
        "text.reference"@
    } else if i == 50 {
        "text.enviroment"@
    } else if i == 51 {
        "text.enviroment.name"@
    } else if i == 52 {
        "note"@
    } else if i == 53 {
        "warning"@
    } else if i == 54 {
        "danger"@
    } else if i == 55 {
        "type"@
    } else if i == 56 {
        "type.builtin"@
    } else if i == 57 {
        "variable"@
    } else if i == 58 {
        "variable.builtin"@
    } else if i == 59 {
        "keyword.control"@
    } else if i == 60 {
        "constant.numeric"@
    } else {
        "markup.bold"@
    }
}

/// The name of catalog entry `i`; the engine is configured against the
/// full list of these, in index order.
pub fn catalog_name(i: usize) -> (r: &'static str)
    requires
        i < ATTRIBUTE_COUNT,
    ensures
        r@ == attribute_name(i as int),
{
    proof {
        reveal(attribute_name);
    }
    match i {
        0 => "annotation",
        1 => "attribute",
        2 => "boolean",
        3 => "character",
        4 => "comment",
        5 => "conditional",
        6 => "constant",
        7 => "constant.builtin",
        8 => "constant.macro",
        9 => "constructor",
        10 => "error",
        11 => "exception",
        12 => "field",
        13 => "float",
        14 => "function",
        15 => "function.builtin",
        16 => "function.macro",
        17 => "include",
        18 => "keyword",
        19 => "keyword.function",
        20 => "keyword.operator",
        21 => "label",
        22 => "method",
        23 => "namespace",
        24 => "none",
        25 => "number",
        26 => "operator",
        27 => "parameter",
        28 => "parameter.reference",
        29 => "property",
        30 => "punctuation.delimiter",
        31 => "punctuation.bracket",
        32 => "punctuation.special",
        33 => "repeat",
        34 => "string",
        35 => "string.regex",
        36 => "string.escape",
        37 => "symbol",
        38 => "tag",
        39 => "tag.delimiter",
        40 => "text",
        41 => "text.strong",
        42 => "text.emphasis",
        43 => "text.underline",
        44 => "text.strike",
        45 => "text.title",
        46 => "text.literal",
        47 => "text.uri",
        48 => "text.math",
        49 => "text.reference",
        50 => "text.enviroment",
        51 => "text.enviroment.name",
        52 => "note",
        53 => "warning",
        54 => "danger",
        55 => "type",
        56 => "type.builtin",
        57 => "variable",
        58 => "variable.builtin",
        59 => "keyword.control",
        60 => "constant.numeric",
        _ => "markup.bold",
    }
}

/// The full catalog, in index order: the list the engine is configured
/// against, which binds the engine's attribute assignment to this index
/// space.
pub fn catalog_names() -> (r: Vec<&'static str>)
    ensures
        r@.len() == ATTRIBUTE_COUNT,
        forall|i: int| 0 <= i < ATTRIBUTE_COUNT ==> r@[i]@ == attribute_name(i),
{
    let mut r: Vec<&'static str> = Vec::new();
    let mut i: usize = 0;
    while i < ATTRIBUTE_COUNT
        invariant
            i <= ATTRIBUTE_COUNT,
            r@.len() == i,
            forall|j: int| 0 <= j < i ==> r@[j]@ == attribute_name(j),
        decreases ATTRIBUTE_COUNT - i,
    {
        r.push(catalog_name(i));
        i = i + 1;
    }
    r
}

} // verus!
