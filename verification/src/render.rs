//! The render endpoint: the markup of the document as it is right now.
//! Nothing is kept between two requests; the caller reads the file anew for
//! each one and hands the outcome of the read in.

use vstd::prelude::*;

verus! {

/// The HTML that `comrak::markdown_to_html` makes of the text `markdown` under
/// the default options with the render flags `hardbreaks` and
/// `github_pre_lang` set as given.
pub uninterp spec fn markdown_html(
    markdown: Seq<char>,
    hardbreaks: bool,
    github_pre_lang: bool,
) -> Seq<char>;

/// Calls `comrak::markdown_to_html` on `markdown` with `ComrakOptions::default()`
/// in which the two render flags are set as given. The contract only names
/// the result: the HTML is a function of the text and the two flags.
#[verifier::external_body]
fn markdown_to_html(markdown: &str, hardbreaks: bool, github_pre_lang: bool) -> (html: String)
    ensures
        html@ == markdown_html(markdown@, hardbreaks, github_pre_lang),
{
    let mut options = comrak::ComrakOptions::default();
    options.render.hardbreaks = hardbreaks;
    options.render.github_pre_lang = github_pre_lang;
    comrak::markdown_to_html(markdown, &options)
}

/// The markup of a document: its HTML with line breaks kept as hard breaks
/// and fenced code blocks tagged with their language.
pub open spec fn rendered(markdown: Seq<char>) -> Seq<char> {
    markdown_html(markdown, true, true)
}

/// Why a render request failed.
#[derive(Debug)]
pub enum RenderError {
    /// The document could not be read; the reason is the reader's.
    Unreadable(String),
}

/// Renders the text of a document to markup.
pub fn compile_markdown(markdown: &str) -> (html: String)
    ensures
        html@ == rendered(markdown@),
{
    markdown_to_html(markdown, true, true)
}

/// Answers one render request from the outcome of reading the document. Text
/// that was read is rendered as it is; a failed read fails this request, with
/// the reader's reason, and nothing else.
pub fn render_document(read: Result<String, String>) -> (response: Result<String, RenderError>)
    ensures
        match read {
            Ok(text) => response matches Ok(html) && html@ == rendered(text@),
            Err(reason) => response matches Err(RenderError::Unreadable(why)) && why@ == reason@,
        },
{
    match read {
        Ok(text) => Ok(compile_markdown(text.as_str())),
        Err(reason) => Err(RenderError::Unreadable(reason)),
    }
}

/// Rendering is repeatable: the markup depends on the text alone, so the same
/// text rendered twice gives the same markup.
pub proof fn lemma_render_is_repeatable(first: Seq<char>, second: Seq<char>)
    requires
        first =~= second,
    ensures
        rendered(first) == rendered(second),
{
}

} // verus!
