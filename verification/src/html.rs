use vstd::prelude::*;

verus! {

/// What `markdown::to_html` yields for the Markdown text `markdown`: its HTML according to
/// CommonMark.
pub uninterp spec fn markdown_html(markdown: Seq<char>) -> Seq<char>;

/// Turns Markdown into HTML with `markdown::to_html` (CommonMark, default options, which
/// never fail). The contract claims only that the result is `markdown_html` of the argument.
#[verifier::external_body]
pub(crate) fn to_html(markdown: &str) -> (html: String)
    ensures
        html@ == markdown_html(markdown@),
{
    markdown::to_html(markdown)
}

} // verus!
