//! The narrow interfaces to the external collaborators: the HTML tree
//! builder and CSS-selector engine (`scraper`) and the regular-expression
//! engine (`regex`). Everything here is trusted; each item's comment names
//! the outside function relied on.

use vstd::prelude::*;

verus! {

#[verifier::external_type_specification]
#[verifier::external_body]
pub struct ExSelector(scraper::Selector);

#[verifier::external_type_specification]
#[verifier::external_body]
pub struct ExRegex(regex::Regex);

#[verifier::external_type_specification]
#[verifier::external_body]
pub struct ExHtml(scraper::Html);

#[verifier::external_type_specification]
#[verifier::external_body]
pub struct ExElementRef<'a>(scraper::ElementRef<'a>);

/// Whether the selector engine accepts `s` as a selector. Acceptance depends
/// on the selector text alone.
pub uninterp spec fn selector_valid(s: Seq<char>) -> bool;

/// Whether the regex engine accepts `p` as a pattern. Acceptance depends on
/// the pattern text alone.
pub uninterp spec fn regex_valid(p: Seq<char>) -> bool;

/// How many capture groups the pattern `p` has, the implicit whole-match
/// group 0 included.
pub uninterp spec fn regex_group_count(p: Seq<char>) -> usize;

/// What the regex engine captures when `p` is applied to `text`: nothing
/// when the pattern does not match anywhere, else one entry per group, in
/// group order, `None` for a group that did not take part in the match.
pub uninterp spec fn regex_caps(p: Seq<char>, text: Seq<char>) -> Option<Seq<Option<Seq<char>>>>;

/// A compiled selector, kept with its source text. The private field is
/// always the compilation of `source`.
pub struct CompiledSelector {
    source: String,
    sel: scraper::Selector,
}

impl CompiledSelector {
    /// The selector text this was compiled from.
    pub closed spec fn src(&self) -> Seq<char> {
        self.source@
    }

    /// The selector text this was compiled from.
    pub fn source_text(&self) -> (r: &String)
        ensures
            r@ == self.src(),
    {
        &self.source
    }
}

/// A compiled regular expression, kept with its pattern text. The private
/// field is always the compilation of `pattern`.
pub struct CompiledRegex {
    pattern: String,
    re: regex::Regex,
}

impl CompiledRegex {
    /// The pattern text this was compiled from.
    pub closed spec fn pat(&self) -> Seq<char> {
        self.pattern@
    }

    /// The pattern text this was compiled from.
    pub fn pattern_text(&self) -> (r: &String)
        ensures
            r@ == self.pat(),
    {
        &self.pattern
    }
}

/// Relies on scraper::Selector::parse: it accepts exactly the selectors the
/// selector engine can compile, and acceptance depends on the text alone.
/// The error text is the engine's own description.
#[verifier::external_body]
pub(crate) fn compile_selector(s: &str) -> (r: Result<CompiledSelector, String>)
    ensures
        r is Ok <==> selector_valid(s@),
        r is Ok ==> r->Ok_0.src() == s@,
{
    match scraper::Selector::parse(s) {
        Ok(sel) => Ok(CompiledSelector { source: s.to_string(), sel }),
        Err(e) => Err(format!("{:?}", e)),
    }
}

/// Relies on regex::Regex::new: it accepts exactly the patterns the regex
/// engine can compile, and acceptance depends on the text alone. The error
/// text is the engine's own description.
#[verifier::external_body]
pub(crate) fn compile_regex(p: &str) -> (r: Result<CompiledRegex, String>)
    ensures
        r is Ok <==> regex_valid(p@),
        r is Ok ==> r->Ok_0.pat() == p@,
{
    match regex::Regex::new(p) {
        Ok(re) => Ok(CompiledRegex { pattern: p.to_string(), re }),
        Err(e) => Err(format!("{}", e)),
    }
}

/// Relies on regex::Regex::captures_len: the number of capture groups of the
/// pattern, which includes the implicit group 0 of every pattern, so it is
/// at least 1.
#[verifier::external_body]
pub(crate) fn group_count(re: &CompiledRegex) -> (r: usize)
    ensures
        r == regex_group_count(re.pat()),
        r >= 1,
{
    re.re.captures_len()
}

/// Relies on regex::Regex::captures: `Some` exactly when the pattern matches
/// somewhere in `text`; then one entry per group of the pattern, in group
/// order, `None` where a group took no part in the match; group 0 spans the
/// whole match and is always present.
#[verifier::external_body]
pub(crate) fn captures_of(re: &CompiledRegex, text: &str) -> (r: Option<Vec<Option<String>>>)
    ensures
        ({
            let c = regex_caps(re.pat(), text@);
            match r {
                Some(groups) => c is Some && groups.deep_view() == c->0 && groups@.len()
                    == regex_group_count(re.pat()) && groups@.len() >= 1 && groups@[0] is Some,
                None => c is None,
            }
        }),
{
    match re.re.captures(text) {
        Some(caps) => {
            let mut out: Vec<Option<String>> = Vec::new();
            for i in 0..caps.len() {
                out.push(caps.get(i).map(|m| m.as_str().to_string()));
            }
            Some(out)
        },
        None => None,
    }
}

/// Relies on scraper::Html::parse_document, which builds a document tree
/// from any input without failing.
#[verifier::external_body]
pub(crate) fn parse_html(s: &str) -> (r: scraper::Html) {
    scraper::Html::parse_document(s)
}

/// Relies on scraper::Html::root_element: the root element of the document
/// tree.
#[verifier::external_body]
pub(crate) fn root_of<'a>(doc: &'a scraper::Html) -> (r: scraper::ElementRef<'a>) {
    doc.root_element()
}

/// Relies on scraper::ElementRef::select: the descendant elements of `elem`
/// matching the selector, in document order. Nothing is assumed of the
/// result; the callers state what holds whatever comes back.
#[verifier::external_body]
pub(crate) fn select_within<'a>(elem: &scraper::ElementRef<'a>, sel: &CompiledSelector) -> (r: Vec<
    scraper::ElementRef<'a>,
>) {
    elem.select(&sel.sel).collect()
}

/// Relies on scraper::ElementRef::attr: the value of the named attribute of
/// the element, if it is present.
#[verifier::external_body]
pub(crate) fn attr_of<'a>(elem: &scraper::ElementRef<'a>, name: &str) -> (r: Option<String>) {
    elem.attr(name).map(str::to_string)
}

/// Relies on scraper::ElementRef::text: the text nodes under the element in
/// traversal order; yields the one at `index`, if there are that many.
#[verifier::external_body]
pub(crate) fn text_node_of<'a>(elem: &scraper::ElementRef<'a>, index: usize) -> (r: Option<String>) {
    elem.text().nth(index).map(str::to_string)
}

/// Relies on scraper::ElementRef::inner_html: the serialized markup inside
/// the element.
#[verifier::external_body]
pub(crate) fn inner_html_of<'a>(elem: &scraper::ElementRef<'a>) -> (r: String) {
    elem.inner_html()
}

} // verus!
