//! The table that answers requests: a path is looked up as it stands, and
//! what is found is sent with headers that never change. The table is
//! filled once, before the first request, and only read after that.

use vstd::prelude::*;
use vstd::string::StringExecFns;
use crate::text::same_text;

verus! {

/// A page of the site: the path it is served under, and its compressed
/// bytes.
pub struct Page {
    pub path: String,
    pub body: Vec<u8>,
}

/// What is sent back for a request.
pub struct Response<'a> {
    pub status: u16,
    pub headers: Vec<(String, String)>,
    pub body: &'a [u8],
}

/// A response as plain values.
pub struct Reply {
    pub status: int,
    pub headers: Seq<(Seq<char>, Seq<char>)>,
    pub body: Seq<u8>,
}

impl<'a> Response<'a> {
    /// The response as plain values.
    pub open spec fn view(&self) -> Reply {
        Reply {
            status: self.status as int,
            headers: self.headers@.map_values(|header: (String, String)| (header.0@, header.1@)),
            body: self.body@,
        }
    }
}

/// The headers that go with every page, found or not: the body is gzip,
/// it is HTML in UTF-8, and it may be kept for a day.
pub open spec fn page_headers_spec() -> Seq<(Seq<char>, Seq<char>)> {
    seq![
        ("Content-Encoding"@, "gzip"@),
        ("Content-Type"@, "text/html; charset=utf-8"@),
        ("Cache-Control"@, "max-age=86400"@),
    ]
}

/// Where a request for an old path is sent: the same path under `/posts`.
pub open spec fn moved_location(path: Seq<char>) -> Seq<char> {
    "/posts"@ + path
}

/// The answer for a page that is there.
pub open spec fn found_reply(body: Seq<u8>) -> Reply {
    Reply { status: 200, headers: page_headers_spec(), body }
}

/// The answer for a path that nothing is served under.
pub open spec fn not_found_reply(body: Seq<u8>) -> Reply {
    Reply { status: 404, headers: page_headers_spec(), body }
}

/// The answer for an old path: a permanent redirect, with nothing in it.
pub open spec fn moved_reply(path: Seq<char>) -> Reply {
    Reply {
        status: 308,
        headers: seq![("Location"@, moved_location(path))],
        body: Seq::empty(),
    }
}

/// The index of the first of `paths` that equals `path`.
pub open spec fn position(paths: Seq<Seq<char>>, path: Seq<char>) -> Option<int>
    decreases paths.len(),
{
    if paths.len() == 0 {
        None
    } else if position(paths.drop_last(), path) is Some {
        position(paths.drop_last(), path)
    } else if paths.last() == path {
        Some(paths.len() - 1)
    } else {
        None
    }
}

/// What is found among the first paths is found among all of them.
pub proof fn lemma_position_of_prefix(paths: Seq<Seq<char>>, path: Seq<char>, n: int)
    requires
        0 <= n <= paths.len(),
        position(paths.take(n), path) is Some,
    ensures
        position(paths, path) == position(paths.take(n), path),
    decreases paths.len() - n,
{
    if n < paths.len() {
        assert(paths.take(n + 1).drop_last() =~= paths.take(n));
        lemma_position_of_prefix(paths, path, n + 1);
    } else {
        assert(paths.take(n) =~= paths);
    }
}

/// The paths of pages, in order.
pub open spec fn page_paths(pages: Seq<Page>) -> Seq<Seq<char>> {
    pages.map_values(|page: Page| page.path@)
}

/// The views of strings, in order.
pub open spec fn path_views(paths: Seq<String>) -> Seq<Seq<char>> {
    paths.map_values(|path: String| path@)
}

/// The pages of a site, the old paths that have moved, and the page for
/// everything else.
pub struct RouteTable {
    pages: Vec<Page>,
    moved: Vec<String>,
    not_found: Vec<u8>,
}

impl RouteTable {
    /// The pages, in the order in which they were added.
    pub closed spec fn pages(&self) -> Seq<Page> {
        self.pages@
    }

    /// The old paths, in the order in which they were added.
    pub closed spec fn moved(&self) -> Seq<Seq<char>> {
        path_views(self.moved@)
    }

    /// The body that is sent when nothing is found.
    pub closed spec fn not_found(&self) -> Seq<u8> {
        self.not_found@
    }

    /// Whether something is served under a path, a page or a redirect.
    pub open spec fn serves(&self, path: Seq<char>) -> bool {
        position(page_paths(self.pages()), path) is Some || position(self.moved(), path) is Some
    }

    /// The answer to a request for a path: the page that is served under
    /// exactly that path; else, for an old path, the redirect; else the
    /// not-found page.
    pub open spec fn reply(&self, path: Seq<char>) -> Reply {
        match position(page_paths(self.pages()), path) {
            Some(index) => found_reply(self.pages()[index].body@),
            None => if position(self.moved(), path) is Some {
                moved_reply(path)
            } else {
                not_found_reply(self.not_found())
            },
        }
    }

    /// A table that serves nothing but the not-found page.
    pub fn new(not_found: Vec<u8>) -> (out: RouteTable)
        ensures
            out.pages() == Seq::<Page>::empty(),
            out.moved() == Seq::<Seq<char>>::empty(),
            out.not_found() == not_found@,
    {
        let out = RouteTable { pages: Vec::new(), moved: Vec::new(), not_found };
        assert(path_views(out.moved@) =~= Seq::<Seq<char>>::empty());
        out
    }

    /// The index of the first page that is served under the path.
    fn find_page(&self, path: &str) -> (out: Option<usize>)
        ensures
            match out {
                Some(index) => position(page_paths(self.pages()), path@) == Some(index as int)
                    && index < self.pages().len(),
                None => position(page_paths(self.pages()), path@) is None,
            },
    {
        let ghost paths = page_paths(self.pages@);
        let mut i: usize = 0;
        assert(paths.take(0) =~= Seq::<Seq<char>>::empty());
        while i < self.pages.len()
            invariant
                i <= self.pages@.len(),
                paths == page_paths(self.pages@),
                position(paths.take(i as int), path@) is None,
            decreases self.pages@.len() - i,
        {
            assert(paths.take(i + 1).drop_last() =~= paths.take(i as int));
            if same_text(self.pages[i].path.as_str(), path) {
                proof {
                    lemma_position_of_prefix(paths, path@, i + 1);
                }
                return Some(i);
            }
            i += 1;
        }
        assert(paths.take(i as int) =~= paths);
        None
    }

    /// Whether the path is one of the old paths.
    fn find_moved(&self, path: &str) -> (out: bool)
        ensures
            out == position(self.moved(), path@) is Some,
    {
        let ghost paths = path_views(self.moved@);
        let mut i: usize = 0;
        assert(paths.take(0) =~= Seq::<Seq<char>>::empty());
        while i < self.moved.len()
            invariant
                i <= self.moved@.len(),
                paths == path_views(self.moved@),
                position(paths.take(i as int), path@) is None,
            decreases self.moved@.len() - i,
        {
            assert(paths.take(i + 1).drop_last() =~= paths.take(i as int));
            if same_text(self.moved[i].as_str(), path) {
                proof {
                    lemma_position_of_prefix(paths, path@, i + 1);
                }
                return true;
            }
            i += 1;
        }
        assert(paths.take(i as int) =~= paths);
        false
    }

    /// Registers a page. A path is served once: where something is served
    /// under the path already, the table stays as it is.
    pub fn add_page(&mut self, path: String, body: Vec<u8>) -> (added: bool)
        ensures
            added == !old(self).serves(path@),
            final(self).moved() == old(self).moved(),
            final(self).not_found() == old(self).not_found(),
            final(self).pages() == if added {
                old(self).pages().push(Page { path, body })
            } else {
                old(self).pages()
            },
    {
        if self.find_page(path.as_str()).is_some() || self.find_moved(path.as_str()) {
            return false;
        }
        self.pages.push(Page { path, body });
        true
    }

    /// Registers an old path, whose requests are sent on to the same path
    /// under `/posts`. Where something is served under the path already,
    /// the table stays as it is.
    pub fn add_moved(&mut self, path: String) -> (added: bool)
        ensures
            added == !old(self).serves(path@),
            final(self).pages() == old(self).pages(),
            final(self).not_found() == old(self).not_found(),
            final(self).moved() == if added {
                old(self).moved().push(path@)
            } else {
                old(self).moved()
            },
    {
        if self.find_page(path.as_str()).is_some() || self.find_moved(path.as_str()) {
            return false;
        }
        let ghost before = path_views(self.moved@);
        self.moved.push(path);
        assert(path_views(self.moved@) =~= before.push(path@));
        true
    }

    /// Answers a request for a path.
    pub fn respond(&self, path: &str) -> (out: Response<'_>)
        ensures
            out@ == self.reply(path@),
    {
        match self.find_page(path) {
            Some(index) => Response {
                status: 200,
                headers: page_headers(),
                body: self.pages[index].body.as_slice(),
            },
            None => if self.find_moved(path) {
                redirect_old(path)
            } else {
                self.fallback()
            },
        }
    }

    /// Answers a request for the home page.
    pub fn home(&self) -> (out: Response<'_>)
        ensures
            out@ == self.reply("/"@),
    {
        self.respond("/")
    }

    /// Answers a request for the page about the site.
    pub fn about(&self) -> (out: Response<'_>)
        ensures
            out@ == self.reply("/about"@),
    {
        self.respond("/about")
    }

    /// Answers a request for the contact page.
    pub fn contact(&self) -> (out: Response<'_>)
        ensures
            out@ == self.reply("/contact"@),
    {
        self.respond("/contact")
    }

    /// Answers a request for the post of the given name, which is served
    /// under `/posts/` and the name.
    pub fn serve_post(&self, post: &str) -> (out: Response<'_>)
        ensures
            out@ == self.reply("/posts/"@ + post@),
    {
        let mut path = String::new();
        path.append("/posts/");
        path.append(post);
        assert(path@ =~= "/posts/"@ + post@);
        self.respond(path.as_str())
    }

    /// The answer for a path that nothing is served under.
    pub fn fallback(&self) -> (out: Response<'_>)
        ensures
            out@ == not_found_reply(self.not_found()),
    {
        Response { status: 404, headers: page_headers(), body: self.not_found.as_slice() }
    }
}

/// The headers that go with every page.
pub fn page_headers() -> (out: Vec<(String, String)>)
    ensures
        out@.map_values(|header: (String, String)| (header.0@, header.1@)) == page_headers_spec(),
{
    let mut out: Vec<(String, String)> = Vec::new();
    out.push(("Content-Encoding".to_owned(), "gzip".to_owned()));
    out.push(("Content-Type".to_owned(), "text/html; charset=utf-8".to_owned()));
    out.push(("Cache-Control".to_owned(), "max-age=86400".to_owned()));
    assert(out@.map_values(|header: (String, String)| (header.0@, header.1@))
        =~= page_headers_spec());
    out
}

/// Sends a request for an old path on to the same path under `/posts`.
pub fn redirect_old(path: &str) -> (out: Response<'static>)
    ensures
        out@ == moved_reply(path@),
{
    let mut location = String::new();
    location.append("/posts");
    location.append(path);
    assert(location@ =~= moved_location(path@));
    let mut headers: Vec<(String, String)> = Vec::new();
    headers.push(("Location".to_owned(), location));
    assert(headers@.map_values(|header: (String, String)| (header.0@, header.1@)) =~= seq![
        ("Location"@, moved_location(path@)),
    ]);
    let nothing: &'static [u8] = &[];
    assert(nothing@ =~= Seq::<u8>::empty());
    Response { status: 308, headers, body: nothing }
}

/// A request for a path that nothing is served under is answered with
/// status 404, the headers of a page, and the not-found page.
pub proof fn lemma_unserved_is_not_found(table: RouteTable, path: Seq<char>)
    requires
        !table.serves(path),
    ensures
        table.reply(path) == not_found_reply(table.not_found()),
        table.reply(path).status == 404,
        table.reply(path).body == table.not_found(),
        table.reply(path).headers[0] == ("Content-Encoding"@, "gzip"@),
{
}

/// Whatever the table holds and whatever is asked for, the answer is one of
/// three: a page, with status 200 and the headers of a page; a permanent
/// redirect, with the place to go to and nothing else; or the not-found
/// page, with status 404 and the headers of a page. A body is never sent
/// without the header that says it is gzip.
pub proof fn lemma_every_reply_is_known(table: RouteTable, path: Seq<char>)
    ensures
        ({
            let reply = table.reply(path);
            ||| reply.status == 200 && reply.headers == page_headers_spec()
            ||| reply.status == 404 && reply.headers == page_headers_spec() && reply.body
                == table.not_found()
            ||| reply.status == 308 && reply.headers == seq![("Location"@, moved_location(path))]
                && reply.body.len() == 0
        }),
        table.reply(path).status != 308 ==> table.reply(path).headers[0] == (
            "Content-Encoding"@,
            "gzip"@,
        ),
{
}

/// A page that was added is served under its path, and every other path is
/// answered as before.
pub proof fn lemma_added_page_is_served(
    before: RouteTable,
    after: RouteTable,
    page: Page,
    other: Seq<char>,
)
    requires
        !before.serves(page.path@),
        after.pages() == before.pages().push(page),
        after.moved() == before.moved(),
        after.not_found() == before.not_found(),
    ensures
        after.reply(page.path@) == found_reply(page.body@),
        other != page.path@ ==> after.reply(other) == before.reply(other),
{
    let paths = page_paths(after.pages());
    assert(paths.drop_last() =~= page_paths(before.pages()));
    assert(paths.last() == page.path@);
    if other != page.path@ {
        match position(page_paths(before.pages()), other) {
            Some(index) => {
                lemma_position_in_range(page_paths(before.pages()), other);
            },
            None => {},
        }
    }
}

/// A position that is found lies within the paths and holds the path.
pub proof fn lemma_position_in_range(paths: Seq<Seq<char>>, path: Seq<char>)
    ensures
        position(paths, path) matches Some(index) ==> 0 <= index < paths.len() && paths[index]
            == path,
    decreases paths.len(),
{
    if paths.len() > 0 {
        lemma_position_in_range(paths.drop_last(), path);
    }
}

/// Where an artifact is served.
#[derive(Debug)]
pub enum Place {
    /// Under the given path.
    At { path: String },
    /// Wherever nothing else is found.
    NotFound,
}

/// The place of the artifact with the given slug: the home page at the
/// root, the pages about the site and for contact under their own names,
/// the not-found page nowhere of its own, and every other artifact, a
/// post, under `/posts/` and its slug.
pub open spec fn place_of(slug: Seq<char>) -> Option<Seq<char>> {
    if slug == "page-404"@ {
        None
    } else if slug == "home"@ {
        Some("/"@)
    } else if slug == "about"@ {
        Some("/about"@)
    } else if slug == "contact"@ {
        Some("/contact"@)
    } else {
        Some("/posts/"@ + slug)
    }
}

/// Finds the place of the artifact with the given slug.
pub fn place(slug: &str) -> (out: Place)
    ensures
        match out {
            Place::At { path } => place_of(slug@) == Some(path@),
            Place::NotFound => place_of(slug@) is None,
        },
{
    if same_text(slug, "page-404") {
        Place::NotFound
    } else if same_text(slug, "home") {
        Place::At { path: "/".to_owned() }
    } else if same_text(slug, "about") {
        Place::At { path: "/about".to_owned() }
    } else if same_text(slug, "contact") {
        Place::At { path: "/contact".to_owned() }
    } else {
        let mut path = String::new();
        path.append("/posts/");
        path.append(slug);
        assert(path@ =~= "/posts/"@ + slug@);
        Place::At { path }
    }
}

} // verus!
