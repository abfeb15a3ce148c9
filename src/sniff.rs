//! Content sniffing: does an HTML page embed a schema.org `Recipe` in one of
//! its `<script type="application/ld+json">` blocks?

use vstd::prelude::*;
use crate::chars::{char_vec, string_from_chars};

verus! {

#[verifier::external_type_specification]
#[verifier::external_body]
pub struct ExJsonValue(serde_json::Value);

#[verifier::external_type_specification]
#[verifier::external_body]
pub struct ExJsonError(serde_json::Error);

/// A JSON value as a mathematical object. Numbers carry no payload: nothing
/// here reads them.
pub enum JsonTree {
    Null,
    Bool(bool),
    Number,
    Text(Seq<char>),
    Array(Seq<JsonTree>),
    Object(Map<Seq<char>, JsonTree>),
}

/// The JSON value that a `serde_json::Value` holds.
pub uninterp spec fn json_tree(v: serde_json::Value) -> JsonTree;

/// What `serde_json::from_str` makes of `text`; `None` when it is no JSON document.
pub uninterp spec fn parsed_json(text: Seq<char>) -> Option<JsonTree>;

/// The inner HTML of each element of the parsed `document` that matches the CSS
/// `selector`, in document order; `None` when the selector does not compile.
pub uninterp spec fn selected_inner_html(document: Seq<char>, selector: Seq<char>) -> Option<
    Seq<Seq<char>>,
>;

/// A character of the Unicode property White_Space.
pub open spec fn is_white_space(c: char) -> bool {
    let n = c as u32;
    (0x9 <= n && n <= 0xd) || n == 0x20 || n == 0x85 || n == 0xa0 || n == 0x1680 || (0x2000 <= n
        && n <= 0x200a) || n == 0x2028 || n == 0x2029 || n == 0x202f || n == 0x205f || n == 0x3000
}

/// `s` without its leading white space.
pub open spec fn trim_start(s: Seq<char>) -> Seq<char>
    decreases s.len(),
{
    if s.len() > 0 && is_white_space(s[0]) {
        trim_start(s.drop_first())
    } else {
        s
    }
}

/// `s` without its trailing white space.
pub open spec fn trim_end(s: Seq<char>) -> Seq<char>
    decreases s.len(),
{
    if s.len() > 0 && is_white_space(s.last()) {
        trim_end(s.drop_last())
    } else {
        s
    }
}

/// `s` without its leading and trailing white space.
pub open spec fn trim_of(s: Seq<char>) -> Seq<char> {
    trim_end(trim_start(s))
}

/// `s` in lower case, as `str::to_lowercase` gives it.
pub uninterp spec fn lower_of(s: Seq<char>) -> Seq<char>;

/// Relies on `serde_json::Value::as_array`: the elements of an array, `None`
/// for any other value.
pub assume_specification[ serde_json::Value::as_array ](v: &serde_json::Value) -> (r: Option<
    &Vec<serde_json::Value>,
>)
    ensures
        match json_tree(*v) {
            JsonTree::Array(items) => r matches Some(a) && a@.len() == items.len() && forall|
                i: int,
            |
                0 <= i < items.len() ==> json_tree(#[trigger] a@[i]) == items[i],
            _ => r is None,
        },
;

/// Relies on `serde_json::Value::as_str`: the text of a string, `None` for any
/// other value.
pub assume_specification[ serde_json::Value::as_str ](v: &serde_json::Value) -> (r: Option<&str>)
    ensures
        match json_tree(*v) {
            JsonTree::Text(s) => r matches Some(t) && t@ == s,
            _ => r is None,
        },
;

/// Relies on `serde_json::Value::get` with a string index: the member of an
/// object under `key`, `None` when it has none or the value is no object.
#[verifier::external_body]
fn member<'a>(v: &'a serde_json::Value, key: &str) -> (r: Option<&'a serde_json::Value>)
    ensures
        match json_tree(*v) {
            JsonTree::Object(m) => if m.contains_key(key@) {
                r matches Some(x) && json_tree(*x) == m[key@]
            } else {
                r is None
            },
            _ => r is None,
        },
{
    v.get(key)
}

/// Relies on `serde_json::from_str` to parse a JSON document.
#[verifier::external_body]
fn parse_json(text: &str) -> (r: Result<serde_json::Value, serde_json::Error>)
    ensures
        match r {
            Ok(v) => parsed_json(text@) == Some(json_tree(v)),
            Err(_) => parsed_json(text@) is None,
        },
{
    serde_json::from_str(text)
}

/// Relies on scraper's query API: `Selector::parse` compiles the selector,
/// `Html::parse_document` parses the page (best effort, it never fails),
/// `Html::select` visits the matching elements in document order and
/// `ElementRef::inner_html` serialises the content of each. scraper's
/// `deterministic` feature, which this crate turns on, keeps attributes in
/// source order, so the serialisation depends on the document alone.
#[verifier::external_body]
fn select_inner_html(document: &str, selector: &str) -> (r: Option<Vec<String>>)
    ensures
        match r {
            Some(v) => selected_inner_html(document@, selector@) == Some(
                v@.map_values(|s: String| s@),
            ),
            None => selected_inner_html(document@, selector@) is None,
        },
{
    let selector = scraper::Selector::parse(selector).ok()?;
    let html = scraper::Html::parse_document(document);
    Some(html.select(&selector).map(|e| e.inner_html()).collect())
}

/// Relies on `str::trim`: leading and trailing characters of the Unicode
/// property White_Space removed.
#[verifier::external_body]
fn trimmed(s: &str) -> (r: &str)
    ensures
        r@ == trim_of(s@),
{
    s.trim()
}

/// Relies on `str::to_lowercase`.
#[verifier::external_body]
fn lowercase(s: &str) -> (r: String)
    ensures
        r@ == lower_of(s@),
{
    s.to_lowercase()
}

/// A control character (Unicode general category Cc), as `char::is_control` has it.
pub open spec fn is_control(c: char) -> bool {
    (c as u32) <= 0x1f || (0x7f <= (c as u32) && (c as u32) <= 0x9f)
}

/// Whether `c` is a control character.
pub fn is_control_char(c: char) -> (r: bool)
    ensures
        r == is_control(c),
{
    let code = c as u32;
    code <= 0x1f || (0x7f <= code && code <= 0x9f)
}

/// `s` with every control character removed.
pub open spec fn strip_controls(s: Seq<char>) -> Seq<char>
    decreases s.len(),
{
    if s.len() == 0 {
        Seq::empty()
    } else {
        let rest = strip_controls(s.drop_last());
        if is_control(s.last()) {
            rest
        } else {
            rest.push(s.last())
        }
    }
}

/// A `@type` label names a recipe: trimmed and lower-cased it reads `recipe`.
pub open spec fn names_recipe(label: Seq<char>) -> bool {
    lower_of(trim_of(label)) == "recipe"@
}

/// `t` is a string that names a recipe.
pub open spec fn text_names_recipe(t: JsonTree) -> bool {
    t matches JsonTree::Text(s) && names_recipe(s)
}

/// The value of a `@type` member declares a recipe: it is such a string, or an
/// array holding one.
pub open spec fn types_recipe(entry: JsonTree) -> bool {
    match entry {
        JsonTree::Array(items) => exists|i: int|
            #![trigger items[i]]
            0 <= i < items.len() && text_names_recipe(items[i]),
        _ => text_names_recipe(entry),
    }
}

/// `t` is an object whose `@type` declares a recipe, or an array with such an
/// element at any depth of nested arrays.
pub open spec fn tree_is_recipe(t: JsonTree) -> bool
    decreases t,
{
    match t {
        JsonTree::Object(m) => m.contains_key("@type"@) && types_recipe(m["@type"@]),
        JsonTree::Array(items) => exists|i: int|
            #![trigger items[i]]
            0 <= i < items.len() && tree_is_recipe(items[i]),
        _ => false,
    }
}

/// The verdict on the JSON-LD blocks of a page, taken in order: `Some(true)` at
/// the first block that holds a recipe, `None` at a block before it that is no
/// JSON once its control characters are stripped, `Some(false)` when none holds
/// a recipe.
pub open spec fn scripts_verdict(blocks: Seq<Seq<char>>) -> Option<bool>
    decreases blocks.len(),
{
    if blocks.len() == 0 {
        Some(false)
    } else {
        match parsed_json(strip_controls(blocks[0])) {
            None => None,
            Some(t) => if tree_is_recipe(t) {
                Some(true)
            } else {
                scripts_verdict(blocks.drop_first())
            },
        }
    }
}

/// The CSS selector of the JSON-LD script elements.
pub open spec fn ld_json_selector() -> Seq<char> {
    "script[type=\"application/ld+json\"]"@
}

/// Why a page could not be sniffed.
#[derive(Debug)]
pub enum RecipeJsonError {
    /// The selector of the script elements did not compile.
    HtmlParsing,
    /// A JSON-LD block met before any recipe is no JSON document.
    JsonParsing(serde_json::Error),
}

/// Whether a lower-cased, trimmed `@type` label is the word `recipe`.
pub fn is_recipe_label(lowered: &str) -> (r: bool)
    ensures
        r == (lowered@ == "recipe"@),
{
    let word = String::from_str("recipe");
    let given = String::from_str(lowered);
    given == word
}

fn label_names_recipe(label: &str) -> (r: bool)
    ensures
        r == names_recipe(label@),
{
    let t = trimmed(label);
    let l = lowercase(t);
    is_recipe_label(l.as_str())
}

/// Whether the value of a `@type` member declares a recipe.
pub fn check_recipe(entry: &serde_json::Value) -> (r: bool)
    ensures
        r == types_recipe(json_tree(*entry)),
{
    if let Some(s) = entry.as_str() {
        return label_names_recipe(s);
    }
    match entry.as_array() {
        None => false,
        Some(items) => {
            let ghost tree = json_tree(*entry);
            let ghost elems = tree->Array_0;
            let mut i: usize = 0;
            while i < items.len()
                invariant
                    tree == json_tree(*entry),
                    tree == JsonTree::Array(elems),
                    items@.len() == elems.len(),
                    forall|j: int| 0 <= j < elems.len() ==> json_tree(#[trigger] items@[j]) == elems[j],
                    0 <= i <= items@.len(),
                    forall|j: int| 0 <= j < i ==> !#[trigger] text_names_recipe(elems[j]),
                decreases items@.len() - i,
            {
                assert(json_tree(items@[i as int]) == elems[i as int]);
                if let Some(s) = items[i].as_str() {
                    if label_names_recipe(s) {
                        assert(text_names_recipe(tree->Array_0[i as int]));
                        return true;
                    }
                }
                i = i + 1;
            }
            assert(!exists|k: int|
                #![trigger elems[k]]
                0 <= k < elems.len() && text_names_recipe(elems[k]));
            false
        },
    }
}

/// Whether a parsed JSON-LD value holds a recipe.
pub fn is_recipe(json: &serde_json::Value) -> (r: bool)
    ensures
        r == tree_is_recipe(json_tree(*json)),
    decreases json_tree(*json),
{
    if let Some(entry) = member(json, "@type") {
        return check_recipe(entry);
    }
    match json.as_array() {
        None => {
            proof {
                let t = json_tree(*json);
                if t is Object {
                    assert(!t->Object_0.contains_key("@type"@));
                }
                assert(!tree_is_recipe(t));
            }
            false
        },
        Some(items) => {
            let ghost tree = json_tree(*json);
            let ghost elems = tree->Array_0;
            let mut i: usize = 0;
            while i < items.len()
                invariant
                    tree == json_tree(*json),
                    tree == JsonTree::Array(elems),
                    items@.len() == elems.len(),
                    forall|j: int| 0 <= j < elems.len() ==> json_tree(#[trigger] items@[j]) == elems[j],
                    0 <= i <= items@.len(),
                    forall|j: int| 0 <= j < i ==> !#[trigger] tree_is_recipe(elems[j]),
                decreases items@.len() - i,
            {
                assert(json_tree(items@[i as int]) == elems[i as int]);
                assert(decreases_to!(tree => tree->Array_0));
                assert(decreases_to!(tree->Array_0 => tree->Array_0[i as int]));
                if is_recipe(&items[i]) {
                    assert(exists|k: int|
                        #![trigger elems[k]]
                        0 <= k < elems.len() && tree_is_recipe(elems[k]));
                    return true;
                }
                i = i + 1;
            }
            assert(!exists|k: int|
                #![trigger elems[k]]
                0 <= k < elems.len() && tree_is_recipe(elems[k]));
            false
        },
    }
}

/// Removes every control character from `input`. Some sites embed raw line
/// breaks inside JSON string values; stripping them lets such blocks parse.
pub fn remove_escape_control_characters(input: &str) -> (r: String)
    ensures
        r@ == strip_controls(input@),
{
    let cs = char_vec(input);
    let mut kept: Vec<char> = Vec::new();
    let mut i: usize = 0;
    while i < cs.len()
        invariant
            cs@ == input@,
            0 <= i <= cs@.len(),
            kept@ == strip_controls(cs@.take(i as int)),
        decreases cs@.len() - i,
    {
        let c = cs[i];
        proof {
            assert(cs@.take(i + 1).drop_last() == cs@.take(i as int));
            assert(cs@.take(i + 1).last() == c);
        }
        if !is_control_char(c) {
            kept.push(c);
        }
        i = i + 1;
    }
    assert(cs@.take(cs@.len() as int) == cs@);
    string_from_chars(&kept)
}

/// The verdict on the inner texts of a page's JSON-LD script elements, taken
/// in order: each is stripped of control characters and parsed; the first
/// that holds a recipe gives `Ok(true)`, a block before it that does not parse
/// gives the parser's error.
pub fn scripts_contain_recipe(blocks: &Vec<String>) -> (r: Result<bool, serde_json::Error>)
    ensures
        match scripts_verdict(blocks@.map_values(|s: String| s@)) {
            Some(b) => r matches Ok(x) && x == b,
            None => r is Err,
        },
{
    let ghost all = blocks@.map_values(|s: String| s@);
    assert(all.subrange(0, all.len() as int) == all);
    let mut i: usize = 0;
    while i < blocks.len()
        invariant
            all == blocks@.map_values(|s: String| s@),
            0 <= i <= blocks@.len(),
            scripts_verdict(all) == scripts_verdict(all.subrange(i as int, all.len() as int)),
        decreases blocks@.len() - i,
    {
        let ghost rest = all.subrange(i as int, all.len() as int);
        proof {
            assert(rest[0] == blocks@[i as int]@);
            assert(rest.drop_first() == all.subrange(i + 1, all.len() as int));
        }
        let content = remove_escape_control_characters(blocks[i].as_str());
        match parse_json(content.as_str()) {
            Err(e) => {
                return Err(e);
            },
            Ok(json) => {
                if is_recipe(&json) {
                    return Ok(true);
                }
            },
        }
        i = i + 1;
    }
    assert(all.subrange(i as int, all.len() as int).len() == 0);
    Ok(false)
}

/// `r` is the outcome of sniffing the page `body`.
pub open spec fn sniffed(body: Seq<char>, r: Result<bool, RecipeJsonError>) -> bool {
    match selected_inner_html(body, ld_json_selector()) {
        None => r matches Err(RecipeJsonError::HtmlParsing),
        Some(blocks) => match scripts_verdict(blocks) {
            Some(b) => r matches Ok(x) && x == b,
            None => r matches Err(RecipeJsonError::JsonParsing(_)),
        },
    }
}

/// Sniffing depends on the page text alone: two outcomes for the same text
/// agree on success, on the verdict and on the kind of error.
pub proof fn lemma_sniff_repeatable(
    body: Seq<char>,
    first: Result<bool, RecipeJsonError>,
    second: Result<bool, RecipeJsonError>,
)
    requires
        sniffed(body, first),
        sniffed(body, second),
    ensures
        first is Ok <==> second is Ok,
        first is Ok ==> first->Ok_0 == second->Ok_0,
        first matches Err(RecipeJsonError::HtmlParsing) <==> second matches Err(
            RecipeJsonError::HtmlParsing,
        ),
{
}

/// Whether the HTML `body` embeds a recipe in one of its
/// `<script type="application/ld+json">` elements, searched in document order.
/// A block that is no JSON fails the whole call, though a later block might
/// have held a recipe: the page's structured data is then taken as broken.
pub fn has_recipe(body: String) -> (r: Result<bool, RecipeJsonError>)
    ensures
        sniffed(body@, r),
{
    let blocks = match select_inner_html(body.as_str(), "script[type=\"application/ld+json\"]") {
        None => {
            return Err(RecipeJsonError::HtmlParsing);
        },
        Some(b) => b,
    };
    match scripts_contain_recipe(&blocks) {
        Ok(b) => Ok(b),
        Err(e) => Err(RecipeJsonError::JsonParsing(e)),
    }
}

/// The validity of a page: it holds a recipe, with any failure to sniff it
/// counting as no recipe.
pub open spec fn valid_body(body: Seq<char>) -> bool {
    match selected_inner_html(body, ld_json_selector()) {
        None => false,
        Some(blocks) => scripts_verdict(blocks) == Some(true),
    }
}

/// Sniffs `body`, downgrading every failure to `false`.
pub fn body_is_valid(body: String) -> (r: bool)
    ensures
        r == valid_body(body@),
{
    match has_recipe(body) {
        Ok(b) => b,
        Err(_) => false,
    }
}

} // verus!
