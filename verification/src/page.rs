use vstd::prelude::*;

use crate::communicator::{update_extra_request, Communicator, HttpRequest};
use crate::html::{markdown_html, to_html};
use crate::json::{
    assign_at_pointer, json_field, json_nesting, json_pointer_assign, json_pointer_str, pointer_str,
    take_field,
};
use crate::text::concat;

verus! {

/// One line of the mapping table: an EgoCMS page id, and the Markdown file (relative to the
/// Markdown directory) that is mapped to that page.
#[derive(Debug)]
pub struct PageToFileMapping {
    pub page_id: String,
    pub markdown_name: String,
}

impl View for PageToFileMapping {
    /// The page id and the Markdown file name.
    type V = (Seq<char>, Seq<char>);

    open spec fn view(&self) -> (Seq<char>, Seq<char>) {
        (self.page_id@, self.markdown_name@)
    }
}

impl PageToFileMapping {
    /// A mapping of the page `page_id` to the Markdown file `markdown_name`.
    pub fn new(page_id: String, markdown_name: String) -> (m: PageToFileMapping)
        ensures
            m@ == (page_id@, markdown_name@),
    {
        PageToFileMapping { page_id, markdown_name }
    }

    /// A mapping that holds the same page id and file name.
    pub fn duplicate(&self) -> (m: PageToFileMapping)
        ensures
            m@ == self@,
    {
        PageToFileMapping { page_id: self.page_id.clone(), markdown_name: self.markdown_name.clone() }
    }
}

/// Why a page could not be read or updated.
#[derive(Debug)]
pub enum PageError {
    /// A JSON document of the page could not be parsed.
    InvalidJson(serde_json::Error),
    /// The page's JSON has no `extra` member.
    MissingExtra,
    /// Nothing, or no string, stands at the JSON pointer of the content.
    MissingContent,
}

/// A page of the site: its line of the mapping table, the `extra` section of its JSON (as
/// compact JSON text), and the HTML of its Markdown file.
pub struct Page {
    pub mapping: PageToFileMapping,
    extra: String,
    html: String,
}

/// What a page holds, as plain values.
pub struct PageView {
    pub mapping: (Seq<char>, Seq<char>),
    pub extra: Seq<char>,
    pub html: Seq<char>,
}

impl View for Page {
    type V = PageView;

    closed spec fn view(&self) -> PageView {
        PageView { mapping: self.mapping@, extra: self.extra@, html: self.html@ }
    }
}

/// The body of an `updateExtra` request: the JSON object `{"extra": <extra>}`, printed
/// compactly as `serde_json` prints it.
pub open spec fn extra_document(extra: Seq<char>) -> Seq<char> {
    "{\"extra\":"@ + extra + "}"@
}

/// What a page's `extra` is after an update has taken it out to send it: JSON `null`.
pub open spec fn taken_extra() -> Seq<char> {
    "null"@
}

impl Page {
    /// The `extra` section of a page's JSON (as the `getPage` call answers it); only this
    /// section of a page concerns the tool.
    pub fn extra_section(page_json: &str) -> (r: Result<String, PageError>)
        ensures
            match json_field(page_json@, "extra"@) {
                None => r matches Err(PageError::InvalidJson(_)),
                Some(None) => r matches Err(PageError::MissingExtra),
                Some(Some(extra)) => r matches Ok(e) && e@ == extra,
            },
            r matches Ok(e) ==> json_nesting(e@) <= 126,
    {
        match take_field(page_json, "extra") {
            Err(e) => Err(PageError::InvalidJson(e)),
            Ok(None) => Err(PageError::MissingExtra),
            Ok(Some(extra)) => Ok(extra),
        }
    }

    /// The page mapped by `mapping`, with the `extra` section of its JSON and the HTML of its
    /// Markdown text `markdown`.
    pub fn new(mapping: PageToFileMapping, extra: String, markdown: &str) -> (p: Page)
        ensures
            p@.mapping == mapping@,
            p@.extra == extra@,
            p@.html == markdown_html(markdown@),
    {
        let html = to_html(markdown);
        Page { mapping, extra, html }
    }

    /// The HTML of the page's Markdown file.
    pub fn html(&self) -> (h: &str)
        ensures
            h@ == self@.html,
    {
        self.html.as_str()
    }

    /// The `extra` section of the page, as compact JSON text.
    pub fn extra(&self) -> (e: &str)
        ensures
            e@ == self@.extra,
    {
        self.extra.as_str()
    }

    /// Whether the content online, the string at the JSON pointer `json_content_path` in
    /// `extra`, is the HTML of the Markdown file.
    pub fn is_up_to_date(&self, json_content_path: &str) -> (r: Result<bool, PageError>)
        ensures
            match json_pointer_str(self@.extra, json_content_path@) {
                None => r matches Err(PageError::InvalidJson(_)),
                Some(None) => r matches Err(PageError::MissingContent),
                Some(Some(online)) => r matches Ok(b) && b == (online == self@.html),
            },
    {
        match pointer_str(self.extra.as_str(), json_content_path) {
            Err(e) => Err(PageError::InvalidJson(e)),
            Ok(None) => Err(PageError::MissingContent),
            Ok(Some(online)) => Ok(online == self.html),
        }
    }

    /// Puts the HTML of the Markdown file at the JSON pointer `json_content_path` in `extra`,
    /// and gives back the request that sends `{"extra": <extra>}` to the page. The page's
    /// `extra` is taken out for that (it is `null` afterwards); on an error nothing changes.
    /// The request carries an `extra` that holds the page's HTML at the pointer. When `extra`
    /// is at most 126 levels deep (as every `extra` that `extra_section` takes out is), the
    /// `extra` member of the sent document reads back as the same text: a page read back from
    /// what was sent, with the same Markdown, is up to date. The request is given whenever
    /// the content can be read at the pointer.
    pub fn update(&mut self, communicator: &Communicator, json_content_path: &str) -> (r: Result<
        HttpRequest,
        PageError,
    >)
        ensures
            match json_pointer_assign(old(self)@.extra, json_content_path@, old(self)@.html) {
                None => r matches Err(PageError::InvalidJson(_)) && final(self)@ == old(self)@,
                Some(None) => r matches Err(PageError::MissingContent) && final(self)@
                    == old(self)@,
                Some(Some(extra)) => {
                    &&& r matches Ok(request) && request@ == update_extra_request(
                        communicator@,
                        old(self)@.mapping.0,
                        extra_document(extra),
                    )
                    &&& json_pointer_str(extra, json_content_path@) == Some(Some(old(self)@.html))
                    &&& json_nesting(extra) <= json_nesting(old(self)@.extra)
                    &&& json_nesting(old(self)@.extra) <= 126 ==> json_field(
                        extra_document(extra),
                        "extra"@,
                    ) == Some(Some(extra))
                    &&& final(self)@ == (PageView { extra: taken_extra(), ..old(self)@ })
                },
            },
            json_pointer_str(old(self)@.extra, json_content_path@) matches Some(Some(_)) ==> r is Ok,
    {
        match assign_at_pointer(self.extra.as_str(), json_content_path, self.html.as_str()) {
            Err(e) => Err(PageError::InvalidJson(e)),
            Ok(None) => Err(PageError::MissingContent),
            Ok(Some(extra)) => {
                let opened = concat("{\"extra\":", extra.as_str());
                let body = concat(opened.as_str(), "}");
                self.extra = "null".to_owned();
                let request = communicator.update_extra(self.mapping.page_id.as_str(), body);
                Ok(request)
            },
        }
    }

    /// Brings the page online in step with its Markdown file: nothing is to be sent when the
    /// content at `json_content_path` already is the HTML (`None`); otherwise the page is
    /// updated and the request to send is given back. Once the content can be read, this
    /// does not fail.
    pub fn synchronize(&mut self, communicator: &Communicator, json_content_path: &str) -> (r:
        Result<Option<HttpRequest>, PageError>)
        ensures
            match json_pointer_str(old(self)@.extra, json_content_path@) {
                None => r matches Err(PageError::InvalidJson(_)) && final(self)@ == old(self)@,
                Some(None) => r matches Err(PageError::MissingContent) && final(self)@ == old(self)@,
                Some(Some(online)) => if online == old(self)@.html {
                    r matches Ok(None) && final(self)@ == old(self)@
                } else {
                    &&& json_pointer_assign(old(self)@.extra, json_content_path@, old(self)@.html)
                        matches Some(Some(extra))
                    &&& r matches Ok(Some(request)) && request@ == update_extra_request(
                        communicator@,
                        old(self)@.mapping.0,
                        extra_document(extra),
                    )
                    &&& json_pointer_str(extra, json_content_path@) == Some(Some(old(self)@.html))
                    &&& json_nesting(extra) <= json_nesting(old(self)@.extra)
                    &&& json_nesting(old(self)@.extra) <= 126 ==> json_field(
                        extra_document(extra),
                        "extra"@,
                    ) == Some(Some(extra))
                    &&& final(self)@ == (PageView { extra: taken_extra(), ..old(self)@ })
                },
            },
    {
        match self.is_up_to_date(json_content_path) {
            Err(e) => Err(e),
            Ok(true) => Ok(None),
            Ok(false) => match self.update(communicator, json_content_path) {
                Ok(request) => Ok(Some(request)),
                Err(e) => Err(e),
            },
        }
    }
}

} // verus!
