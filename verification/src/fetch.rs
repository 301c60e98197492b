//! Fetching a page: a file that GitHub does not find is looked for once more, on
//! another branch of its repository.

use crate::text;
use crate::tools;
use vstd::prelude::*;

verus! {

/// The status of a page that is not there.
pub const NOT_FOUND: u16 = 404;

/// What a fetch waits for.
#[derive(Debug, PartialEq)]
pub enum FetchWait {
    /// The answer to the address.
    Page,
    /// The default branch of the repository.
    Branch,
    /// The answer to a second address, with the note for when it is there.
    Retry { url: String, note: String },
    Nothing,
}

/// The model of what a fetch waits for.
#[verifier::ext_equal]
pub enum WaitView {
    Page,
    Branch,
    Retry { url: Seq<char>, note: Seq<char> },
    Nothing,
}

impl View for FetchWait {
    type V = WaitView;

    open spec fn view(&self) -> WaitView {
        match self {
            FetchWait::Page => WaitView::Page,
            FetchWait::Branch => WaitView::Branch,
            FetchWait::Retry { url, note } => WaitView::Retry { url: url@, note: note@ },
            FetchWait::Nothing => WaitView::Nothing,
        }
    }
}

/// A page that is being fetched.
#[derive(Debug, PartialEq)]
pub struct Fetch {
    pub url: String,
    pub note: String,
    pub waits: FetchWait,
}

/// The model of a fetch.
#[verifier::ext_equal]
pub struct FetchView {
    pub url: Seq<char>,
    pub note: Seq<char>,
    pub waits: WaitView,
}

impl View for Fetch {
    type V = FetchView;

    open spec fn view(&self) -> FetchView {
        FetchView { url: self.url@, note: self.note@, waits: self.waits@ }
    }
}

/// What is to be done next for a fetch.
#[derive(Debug, PartialEq)]
pub enum FetchStep {
    /// GitHub is to be asked for the default branch of a repository.
    AskBranch { owner: String, repo: String },
    /// An address is to be asked for.
    Get(String),
    /// The answer that came first is the page.
    TakeFirst,
    /// The answer that came second is the page.
    TakeSecond,
}

/// The model of what is to be done next.
#[verifier::ext_equal]
pub enum NextView {
    AskBranch { owner: Seq<char>, repo: Seq<char> },
    Get(Seq<char>),
    TakeFirst,
    TakeSecond,
}

impl View for FetchStep {
    type V = NextView;

    open spec fn view(&self) -> NextView {
        match self {
            FetchStep::AskBranch { owner, repo } => NextView::AskBranch { owner: owner@, repo: repo@ },
            FetchStep::Get(url) => NextView::Get(url@),
            FetchStep::TakeFirst => NextView::TakeFirst,
            FetchStep::TakeSecond => NextView::TakeSecond,
        }
    }
}

/// A fetch at its start.
pub open spec fn started(url: Seq<char>, note: Seq<char>) -> FetchView {
    FetchView { url, note, waits: WaitView::Page }
}

/// A fetch that takes the first answer.
pub open spec fn first_taken(f: FetchView) -> (FetchView, NextView) {
    (FetchView { waits: WaitView::Nothing, ..f }, NextView::TakeFirst)
}

/// A fetch once the address answered.
pub open spec fn after_page(f: FetchView, status: u16) -> (FetchView, NextView) {
    match tools::raw_github_parts(f.url) {
        Some(p) if status == NOT_FOUND => (
            FetchView { waits: WaitView::Branch, ..f },
            NextView::AskBranch { owner: p.0, repo: p.1 },
        ),
        _ => first_taken(f),
    }
}

/// The note on a file that was found on another branch.
pub open spec fn moved_note(guessed: Seq<char>, branch: Seq<char>, url: Seq<char>) -> Seq<char> {
    "(branch '"@ + guessed + "' nao existe nesse repo; tentei '"@ + branch + "' e funcionou: "@ + url
        + ")\n"@
}

/// A fetch once the default branch is known, or is known not to be told.
pub open spec fn after_branch(f: FetchView, found: Option<Seq<char>>) -> (FetchView, NextView) {
    match tools::raw_github_parts(f.url) {
        Some(p) => match tools::other_branch(found, p.2) {
            Some(b) => {
                let url = tools::raw_url(p.0, p.1, b, p.3);
                (
                    FetchView {
                        waits: WaitView::Retry { url, note: moved_note(p.2, b, url) },
                        ..f
                    },
                    NextView::Get(url),
                )
            },
            None => first_taken(f),
        },
        None => first_taken(f),
    }
}

/// A fetch once the second address answered, or did not.
pub open spec fn after_retry(f: FetchView, status: Option<u16>) -> (FetchView, NextView) {
    match (f.waits, status) {
        (WaitView::Retry { url, note }, Some(s)) => if s != NOT_FOUND {
            (
                FetchView { url, note: f.note + note, waits: WaitView::Nothing },
                NextView::TakeSecond,
            )
        } else {
            first_taken(f)
        },
        _ => first_taken(f),
    }
}

/// What a page says: a page that is no text is refused.
pub open spec fn page_text(f: FetchView, status: u16, content_type: Seq<char>, body: Seq<char>) -> Result<
    Seq<char>,
    Seq<char>,
> {
    if tools::texty(content_type) {
        Ok(
            f.note + "--- GET "@ + f.url + " ["@ + text::decimal(status as nat) + "] ---\n"@ + body,
        )
    } else {
        Err(
            "content-type '"@ + content_type
                + "' nao e texto; fetch_url so devolve conteudo textual"@,
        )
    }
}

impl Fetch {
    /// Begins to fetch an address; it is to be asked for.
    pub fn new(url: String, note: String) -> (r: Fetch)
        ensures
            r@ == started(url@, note@),
    {
        Fetch { url, note, waits: FetchWait::Page }
    }

    fn take_first(&mut self) -> (r: FetchStep)
        ensures
            (final(self)@, r@) == first_taken(old(self)@),
    {
        self.waits = FetchWait::Nothing;
        FetchStep::TakeFirst
    }

    /// The address answered.
    pub fn on_page(&mut self, status: u16) -> (r: FetchStep)
        ensures
            (final(self)@, r@) == after_page(old(self)@, status),
    {
        match tools::parse_raw_github_url(self.url.as_str()) {
            Some((owner, repo, _, _)) => {
                if status == NOT_FOUND {
                    self.waits = FetchWait::Branch;
                    return FetchStep::AskBranch { owner, repo };
                }
            },
            None => {},
        }
        self.take_first()
    }

    /// GitHub told the default branch, or did not.
    pub fn on_branch(&mut self, found: Option<String>) -> (r: FetchStep)
        ensures
            (final(self)@, r@) == after_branch(old(self)@, text::opt_view(found)),
    {
        match tools::parse_raw_github_url(self.url.as_str()) {
            Some((owner, repo, guessed, path)) => {
                match tools::alternative_branch(found, guessed.as_str()) {
                    Some(branch) => {
                        let (url, note) = tools::retry_fetch(
                            owner.as_str(),
                            repo.as_str(),
                            guessed.as_str(),
                            branch.as_str(),
                            path.as_str(),
                        );
                        let asked = url.as_str().to_string();
                        self.waits = FetchWait::Retry { url, note };
                        FetchStep::Get(asked)
                    },
                    None => self.take_first(),
                }
            },
            None => self.take_first(),
        }
    }

    /// The second address answered, or did not.
    pub fn on_retry(&mut self, status: Option<u16>) -> (r: FetchStep)
        ensures
            (final(self)@, r@) == after_retry(old(self)@, status),
    {
        let there = match status {
            Some(s) => s != NOT_FOUND,
            None => false,
        };
        let moved = match &self.waits {
            FetchWait::Retry { url, note } => if there {
                Some((url.as_str().to_string(), text::cat2(self.note.as_str(), note.as_str())))
            } else {
                None
            },
            _ => None,
        };
        match moved {
            Some((url, note)) => {
                self.url = url;
                self.note = note;
                self.waits = FetchWait::Nothing;
                FetchStep::TakeSecond
            },
            None => self.take_first(),
        }
    }

    /// Words the page that was taken.
    pub fn finish(&self, status: u16, content_type: &str, body: &str) -> (r: Result<String, String>)
        ensures
            match r {
                Ok(t) => page_text(self@, status, content_type@, body@) == Ok::<
                    Seq<char>,
                    Seq<char>,
                >(t@),
                Err(e) => page_text(self@, status, content_type@, body@) == Err::<
                    Seq<char>,
                    Seq<char>,
                >(e@),
            },
    {
        match tools::check_content_type(content_type) {
            Ok(_) => Ok(
                tools::fetch_url_result(self.note.as_str(), self.url.as_str(), status, body),
            ),
            Err(e) => Err(e),
        }
    }
}

/// A page that is there is taken as it is, and so is one that is not on GitHub.
pub proof fn law_page_is_taken(f: FetchView, status: u16)
    requires
        status != NOT_FOUND || tools::raw_github_parts(f.url) is None,
    ensures
        after_page(f, status) == first_taken(f),
        after_page(f, status).0.url == f.url,
        after_page(f, status).0.note == f.note,
{
}

/// A file that was not found is looked for at most once more, on another branch;
/// where it is not there either, the first answer stands under its address.
pub proof fn law_missing_file_is_tried_once_more(
    f: FetchView,
    found: Option<Seq<char>>,
    status: Option<u16>,
)
    ensures
        ({
            let (asked, step) = after_branch(f, found);
            let (done, last) = after_retry(asked, status);
            &&& step is Get || step is TakeFirst
            &&& last is TakeFirst || last is TakeSecond
            &&& done.waits is Nothing
            &&& last is TakeSecond ==> step == NextView::Get(done.url)
            &&& last is TakeFirst ==> done.url == f.url && done.note == f.note
            &&& step is Get ==> exists|p: (Seq<char>, Seq<char>, Seq<char>, Seq<char>), b: Seq<char>|
                {
                    &&& tools::raw_github_parts(f.url) == Some(p)
                    &&& b != p.2
                    &&& step == NextView::Get(#[trigger] tools::raw_url(p.0, p.1, b, p.3))
                }
        }),
{
    let (asked, step) = after_branch(f, found);
    if step is Get {
        let p = tools::raw_github_parts(f.url)->0;
        let b = tools::other_branch(found, p.2)->0;
        lemma_other_branch_differs(found, p.2);
        assert(b != p.2 && step == NextView::Get(tools::raw_url(p.0, p.1, b, p.3)));
    }
}

proof fn lemma_other_branch_differs(found: Option<Seq<char>>, guessed: Seq<char>)
    ensures
        tools::other_branch(found, guessed) matches Some(b) ==> b != guessed,
{
    reveal_strlit("main");
    reveal_strlit("master");
    assert("main"@.len() != "master"@.len());
}

/// What a page says is told whole, under its address and its status and behind the notes; what is
/// no text is refused.
pub proof fn law_page_is_told_whole(
    f: FetchView,
    status: u16,
    content_type: Seq<char>,
    body: Seq<char>,
)
    ensures
        content_type.len() == 0 || text::has_prefix(content_type, "text/"@) || text::has(
            content_type,
            "json"@,
        ) || text::has(content_type, "xml"@) || text::has(content_type, "javascript"@)
            ==> page_text(f, status, content_type, body) == Ok::<Seq<char>, Seq<char>>(
            f.note + "--- GET "@ + f.url + " ["@ + text::decimal(status as nat) + "] ---\n"@ + body,
        ),
        content_type.len() > 0 && !text::has_prefix(content_type, "text/"@) && !text::has(
            content_type,
            "json"@,
        ) && !text::has(content_type, "xml"@) && !text::has(content_type, "javascript"@)
            ==> page_text(f, status, content_type, body) is Err,
{
}

/// A missing file of a GitHub repository is looked for on the default branch of that repository,
/// under the same path, unless that branch was tried; then on the other of the two usual ones.
pub proof fn law_missing_file_is_sought_on_branch(
    f: FetchView,
    owner: Seq<char>,
    repo: Seq<char>,
    guessed: Seq<char>,
    path: Seq<char>,
    branch: Seq<char>,
)
    requires
        tools::raw_github_parts(f.url) == Some((owner, repo, guessed, path)),
    ensures
        after_page(f, 404).1 == (NextView::AskBranch { owner, repo }),
        branch != guessed ==> after_branch(f, Some(branch)).1 == NextView::Get(
            "https://raw.githubusercontent.com/"@ + owner + "/"@ + repo + "/"@ + branch + "/"@
                + path,
        ),
        guessed == "main"@ ==> after_branch(f, None).1 == NextView::Get(
            "https://raw.githubusercontent.com/"@ + owner + "/"@ + repo + "/"@ + "master"@ + "/"@
                + path,
        ),
        guessed == "master"@ ==> after_branch(f, None).1 == NextView::Get(
            "https://raw.githubusercontent.com/"@ + owner + "/"@ + repo + "/"@ + "main"@ + "/"@
                + path,
        ),
{
    reveal_strlit("main");
    reveal_strlit("master");
    assert("main"@.len() != "master"@.len());
}

} // verus!
