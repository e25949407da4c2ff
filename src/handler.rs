//! Mapping a request path onto a file under a sandbox root.
//!
//! The filesystem is asked by the caller: it canonicalizes the candidate path
//! that [`RequestHandler::candidate_path`] builds, tells what kind of entry it
//! names, and reads files. The decisions made on those answers, and the
//! rendering of what is served, are here.

use vstd::prelude::*;
use vstd::string::StringExecFns;
use vstd::string::StrSliceExecFns;
use vstd::utf8::encode_utf8;
use crate::text::{fmt_size, size_text};

verus! {

/// The position of the last `c` in `s`, or -1 when there is none.
pub open spec fn last_index(s: Seq<char>, c: char) -> int
    decreases s.len(),
{
    if s.len() == 0 {
        -1
    } else if s.last() == c {
        s.len() - 1
    } else {
        last_index(s.drop_last(), c)
    }
}

/// The last component of a path: what follows its last separator.
pub open spec fn file_name(p: Seq<char>) -> Seq<char> {
    p.subrange(last_index(p, '/') + 1, p.len() as int)
}

/// The extension of a path: what follows the last dot of its last component,
/// when that dot is not the component's first character.
pub open spec fn extension(p: Seq<char>) -> Option<Seq<char>> {
    let name = file_name(p);
    let d = last_index(name, '.');
    if d <= 0 {
        None
    } else {
        Some(name.subrange(d + 1, name.len() as int))
    }
}

/// The media type served for an extension; anything unlisted is served as HTML.
pub open spec fn media_type(ext: Option<Seq<char>>) -> Seq<char> {
    match ext {
        Some(e) => {
            if e == "html"@ {
                "text/html"@
            } else if e == "css"@ {
                "text/css"@
            } else if e == "js"@ {
                "text/javascript"@
            } else if e == "png"@ {
                "image/png"@
            } else if e == "jpg"@ || e == "jpeg"@ {
                "image/jpeg"@
            } else if e == "gif"@ {
                "image/gif"@
            } else if e == "svg"@ {
                "image/svg+xml"@
            } else if e == "pdf"@ {
                "application/pdf"@
            } else {
                "text/html"@
            }
        },
        None => "text/html"@,
    }
}

/// The media type served for a path, by its extension.
pub open spec fn content_type_of(p: Seq<char>) -> Seq<char> {
    media_type(extension(p))
}

/// A request path with one leading separator removed.
pub open spec fn strip_slash(url: Seq<char>) -> Seq<char> {
    if url.len() > 0 && url[0] == '/' {
        url.drop_first()
    } else {
        url
    }
}

/// `rel` appended to the path `base`, as a path join does: an absolute `rel`
/// replaces `base`, otherwise one separator stands between them.
pub open spec fn join_path(base: Seq<char>, rel: Seq<char>) -> Seq<char> {
    if rel.len() > 0 && rel[0] == '/' {
        rel
    } else if base.len() > 0 && base.last() == '/' {
        base + rel
    } else {
        base + seq!['/'] + rel
    }
}

/// Whether the path `p` lies at or below `root`, component by component.
pub open spec fn within(root: Seq<char>, p: Seq<char>) -> bool {
    &&& p.len() >= root.len()
    &&& p.take(root.len() as int) == root
    &&& (p.len() == root.len() || (root.len() > 0 && root.last() == '/') || p[root.len() as int]
        == '/')
}

/// Whether two strings hold the same characters.
fn text_eq(a: &str, b: &str) -> (r: bool)
    ensures
        r == (a@ == b@),
{
    let n = a.unicode_len();
    if n != b.unicode_len() {
        return false;
    }
    let mut i: usize = 0;
    while i < n
        invariant
            n == a@.len(),
            n == b@.len(),
            i <= n,
            forall|j: int| 0 <= j < i ==> a@[j] == b@[j],
        decreases n - i,
    {
        if a.get_char(i) != b.get_char(i) {
            return false;
        }
        i = i + 1;
    }
    assert(a@ =~= b@);
    true
}

/// The position of the last `c` in `s`.
fn find_last(s: &str, c: char) -> (r: Option<usize>)
    ensures
        match r {
            Some(i) => i == last_index(s@, c) && i < s@.len(),
            None => last_index(s@, c) == -1,
        },
{
    let n = s.unicode_len();
    let mut i: usize = n;
    assert(s@.take(n as int) =~= s@);
    while i > 0
        invariant
            i <= n,
            n == s@.len(),
            last_index(s@, c) == last_index(s@.take(i as int), c),
        decreases i,
    {
        assert(s@.take(i as int).drop_last() =~= s@.take(i - 1));
        if s.get_char(i - 1) == c {
            return Some(i - 1);
        }
        i = i - 1;
    }
    None
}

/// The media type for an extension.
fn media_type_text(ext: &str) -> (r: &'static str)
    ensures
        r@ == media_type(Some(ext@)),
{
    if text_eq(ext, "html") {
        "text/html"
    } else if text_eq(ext, "css") {
        "text/css"
    } else if text_eq(ext, "js") {
        "text/javascript"
    } else if text_eq(ext, "png") {
        "image/png"
    } else if text_eq(ext, "jpg") || text_eq(ext, "jpeg") {
        "image/jpeg"
    } else if text_eq(ext, "gif") {
        "image/gif"
    } else if text_eq(ext, "svg") {
        "image/svg+xml"
    } else if text_eq(ext, "pdf") {
        "application/pdf"
    } else {
        "text/html"
    }
}

/// The media type served for a path, from the fixed table of extensions.
pub fn content_type(path: &str) -> (r: &'static str)
    ensures
        r@ == content_type_of(path@),
{
    let n = path.unicode_len();
    let start = match find_last(path, '/') {
        Some(i) => i + 1,
        None => 0,
    };
    let name = path.substring_char(start, n);
    let len = name.unicode_len();
    match find_last(name, '.') {
        Some(d) => {
            if d == 0 {
                "text/html"
            } else {
                media_type_text(name.substring_char(d + 1, len))
            }
        },
        None => "text/html",
    }
}

/// What kind of filesystem entry a canonical path names.
#[derive(PartialEq, Eq, Structural, Clone, Copy, Debug)]
pub enum FileKind {
    Directory,
    File,
    Other,
}

/// What to do with a request once its path has been canonicalized.
pub enum Lookup {
    /// Serve the uniform not-found page.
    NotFound,
    /// Read the file at `path` and serve it as `content_type`.
    File { path: String, content_type: String },
    /// Serve the file at `index_path` as `content_type` when it is a readable
    /// regular file; when there is no such file, list the directory `path`.
    Directory { path: String, index_path: String, content_type: String },
}

/// Serves files from below a root directory, a directory by its index file.
pub struct RequestHandler {
    root: String,
    index_file: String,
}

impl RequestHandler {
    /// The root directory: canonical, every served path lies below it.
    pub closed spec fn spec_root(&self) -> Seq<char> {
        self.root@
    }

    /// The name of the file served for a directory.
    pub closed spec fn spec_index_file(&self) -> Seq<char> {
        self.index_file@
    }

    /// A handler for the canonical directory `root` that serves a directory
    /// by its file named `index_file`.
    pub fn new(root: String, index_file: String) -> (r: Self)
        ensures
            r.spec_root() == root@,
            r.spec_index_file() == index_file@,
    {
        RequestHandler { root, index_file }
    }

    /// The root directory.
    pub fn root(&self) -> (r: &str)
        ensures
            r@ == self.spec_root(),
    {
        self.root.as_str()
    }

    /// The path a request path names before canonicalization: the request
    /// path, less one leading separator, joined onto the root.
    pub fn candidate_path(&self, url: &str) -> (r: String)
        ensures
            r@ == join_path(self.spec_root(), strip_slash(url@)),
    {
        let n = url.unicode_len();
        let rel = if n > 0 && url.get_char(0) == '/' {
            url.substring_char(1, n)
        } else {
            url
        };
        assert(rel@ =~= strip_slash(url@));
        let rn = rel.unicode_len();
        let bn = self.root.unicode_len();
        proof {
            reveal_strlit("/");
        }
        if rn > 0 && rel.get_char(0) == '/' {
            String::from_str(rel)
        } else if bn > 0 && self.root.get_char(bn - 1) == '/' {
            String::from_str(self.root.as_str()).concat(rel)
        } else {
            String::from_str(self.root.as_str()).concat("/").concat(rel)
        }
    }

    /// Whether a canonical path lies at or below the root.
    pub fn within_root(&self, path: &str) -> (r: bool)
        ensures
            r == within(self.spec_root(), path@),
    {
        let rn = self.root.unicode_len();
        let pn = path.unicode_len();
        if pn < rn {
            return false;
        }
        if !text_eq(path.substring_char(0, rn), self.root.as_str()) {
            return false;
        }
        if pn == rn {
            return true;
        }
        if rn > 0 && self.root.get_char(rn - 1) == '/' {
            return true;
        }
        path.get_char(rn) == '/'
    }

    /// Decides what a request is answered with, from the canonical form of
    /// its candidate path (`None` when canonicalization failed) and the kind
    /// of entry that path names. Nothing outside the root is ever served.
    pub fn lookup(&self, canonical: Option<String>, kind: FileKind) -> (r: Lookup)
        ensures
            match canonical {
                Some(p) => if !within(self.spec_root(), p@) || kind == FileKind::Other {
                    r is NotFound
                } else if kind == FileKind::File {
                    r matches Lookup::File { path, content_type } && path@ == p@ && content_type@
                        == content_type_of(p@)
                } else {
                    r matches Lookup::Directory { path, index_path, content_type } && path@ == p@
                        && index_path@ == join_path(p@, self.spec_index_file())
                        && content_type@ == content_type_of(p@)
                },
                None => r is NotFound,
            },
    {
        match canonical {
            None => Lookup::NotFound,
            Some(p) => {
                if !self.within_root(p.as_str()) {
                    Lookup::NotFound
                } else {
                    match kind {
                        FileKind::Other => Lookup::NotFound,
                        FileKind::File => {
                            let ct = String::from_str(content_type(p.as_str()));
                            Lookup::File { path: p, content_type: ct }
                        },
                        FileKind::Directory => {
                            let ct = String::from_str(content_type(p.as_str()));
                            let ip = join_text(p.as_str(), self.index_file.as_str());
                            Lookup::Directory { path: p, index_path: ip, content_type: ct }
                        },
                    }
                }
            },
        }
    }
}

/// Joins `rel` onto the path `base`.
fn join_text(base: &str, rel: &str) -> (r: String)
    ensures
        r@ == join_path(base@, rel@),
{
    let rn = rel.unicode_len();
    let bn = base.unicode_len();
    proof {
        reveal_strlit("/");
    }
    if rn > 0 && rel.get_char(0) == '/' {
        String::from_str(rel)
    } else if bn > 0 && base.get_char(bn - 1) == '/' {
        String::from_str(base).concat(rel)
    } else {
        String::from_str(base).concat("/").concat(rel)
    }
}

/// The page served when nothing is found.
pub const NOT_FOUND_PAGE: &'static str = "<!DOCTYPE html>
<html>
<head><meta charset=\"utf-8\"><title>404 Not Found</title></head>
<body>
<h1>404 Not Found</h1>
<p>The requested resource does not exist.</p>
</body>
</html>
";

/// The listing page up to the current path.
pub const PAGE_HEAD: &'static str = "<!DOCTYPE html>
<html>
<head><meta charset=\"utf-8\"><title>Index</title></head>
<body>
<h1>Index of ";

/// The listing page between the current path and the entries.
pub const PAGE_MID: &'static str = "</h1>
<ul class=\"file-list\">
";

/// The listing page after the entries.
pub const PAGE_TAIL: &'static str = "
</ul>
</body>
</html>
";

/// The parent entry up to its link.
pub const PARENT_OPEN: &'static str = "<li class=\"file-item\">
<a href=\"";

/// The parent entry after its link.
pub const PARENT_CLOSE: &'static str = "\">
<svg class=\"file-icon\" viewBox=\"0 0 20 20\"><path d=\"M2 6a2 2 0 012-2h5l2 2h5a2 2 0 012 2v6a2 2 0 01-2 2H4a2 2 0 01-2-2V6z\"/></svg>
..
</a>
</li>";

/// A child entry up to its link.
pub const ITEM_OPEN: &'static str = "<li class=\"file-item\">
<a href=\"";

/// A child entry between its link and its icon.
pub const ITEM_ICON: &'static str = "\">
<svg class=\"file-icon\" viewBox=\"0 0 20 20\">";

/// The icon of a directory.
pub const FOLDER_ICON: &'static str = "<path d=\"M2 6a2 2 0 012-2h5l2 2h5a2 2 0 012 2v6a2 2 0 01-2 2H4a2 2 0 01-2-2V6z\"/>";

/// The icon of a file.
pub const FILE_ICON: &'static str = "<path d=\"M4 4a2 2 0 012-2h4.586A2 2 0 0112 2.586L15.414 6A2 2 0 0116 7.414V16a2 2 0 01-2 2H6a2 2 0 01-2-2V4z\"/>";

/// A child entry between its icon and its name.
pub const ITEM_NAME: &'static str = "</svg>
";

/// A child entry between its name and its size.
pub const ITEM_SIZE: &'static str = "
</a>
<span class=\"file-info\"><span class=\"file-size\">";

/// A child entry after its size.
pub const ITEM_CLOSE: &'static str = "</span></span>
</li>";

/// A direct child of a listed directory.
pub struct DirEntry {
    pub name: String,
    pub is_dir: bool,
    /// The size in bytes; not shown for a directory.
    pub size: u64,
}

/// The path of `dir` relative to `root`, without a leading separator; empty
/// for the root itself.
pub open spec fn relative(root: Seq<char>, dir: Seq<char>) -> Seq<char> {
    if dir.len() <= root.len() {
        Seq::empty()
    } else if root.len() > 0 && root.last() == '/' {
        dir.subrange(root.len() as int, dir.len() as int)
    } else {
        dir.subrange(root.len() as int + 1, dir.len() as int)
    }
}

/// The link to the parent of the directory at relative path `rel`: the
/// absolute form of `rel` less its last segment, or `/` when nothing is left.
pub open spec fn parent_href(rel: Seq<char>) -> Seq<char> {
    let full = seq!['/'] + rel;
    let up = full.take(last_index(full, '/'));
    if up.len() == 0 {
        seq!['/']
    } else {
        up
    }
}

/// The link to the child `name` of the directory at relative path `rel`.
pub open spec fn child_href(rel: Seq<char>, name: Seq<char>) -> Seq<char> {
    if rel.len() == 0 {
        seq!['/'] + name
    } else {
        seq!['/'] + rel + seq!['/'] + name
    }
}

/// The listing entry that leads to the parent directory.
pub open spec fn parent_item(href: Seq<char>) -> Seq<char> {
    PARENT_OPEN@ + href + PARENT_CLOSE@
}

/// The listing entry of a child of the directory at relative path `rel`.
pub open spec fn child_item(rel: Seq<char>, e: DirEntry) -> Seq<char> {
    ITEM_OPEN@ + child_href(rel, e.name@) + ITEM_ICON@ + (if e.is_dir {
        FOLDER_ICON@
    } else {
        FILE_ICON@
    }) + ITEM_NAME@ + e.name@ + ITEM_SIZE@ + (if e.is_dir {
        Seq::empty()
    } else {
        size_text(e.size as nat)
    }) + ITEM_CLOSE@
}

/// The entries of the listing of `dir`: a parent entry unless `dir` is the
/// root, then one entry per child, in the order given.
pub open spec fn listing_items(root: Seq<char>, dir: Seq<char>, entries: Seq<DirEntry>) -> Seq<
    Seq<char>,
> {
    let rel = relative(root, dir);
    let kids = entries.map_values(|e: DirEntry| child_item(rel, e));
    if dir == root {
        kids
    } else {
        seq![parent_item(parent_href(rel))] + kids
    }
}

/// Strings joined by line breaks.
pub open spec fn join_lines(items: Seq<Seq<char>>) -> Seq<char>
    decreases items.len(),
{
    if items.len() == 0 {
        Seq::empty()
    } else if items.len() == 1 {
        items[0]
    } else {
        join_lines(items.drop_last()) + seq!['\n'] + items.last()
    }
}

/// The listing page of `dir`: its path from the root, then its entries.
pub open spec fn listing_page(root: Seq<char>, dir: Seq<char>, entries: Seq<DirEntry>) -> Seq<
    char,
> {
    PAGE_HEAD@ + seq!['/'] + relative(root, dir) + PAGE_MID@ + join_lines(
        listing_items(root, dir, entries),
    ) + PAGE_TAIL@
}

/// A listing holds one entry per child, and one more, for the parent, unless
/// the listed directory is the root.
pub proof fn lemma_listing_entries(root: Seq<char>, dir: Seq<char>, entries: Seq<DirEntry>)
    ensures
        listing_items(root, dir, entries).len() == entries.len() + if dir == root {
            0int
        } else {
            1int
        },
        dir != root ==> listing_items(root, dir, entries)[0] == parent_item(
            parent_href(relative(root, dir)),
        ),
        dir == root ==> forall|i: int|
            0 <= i < entries.len() ==> listing_items(root, dir, entries)[i] == child_item(
                relative(root, dir),
                #[trigger] entries[i],
            ),
        dir != root ==> forall|i: int|
            0 <= i < entries.len() ==> listing_items(root, dir, entries)[i + 1] == child_item(
                relative(root, dir),
                #[trigger] entries[i],
            ),
{
}

/// What a request resolved to.
pub enum Resolved {
    RegularFile { bytes: Vec<u8>, content_type: String },
    DirectoryIndex { bytes: Vec<u8>, content_type: String },
    DirectoryListing { html: String },
    NotFound,
}

/// What reading a directory's index file gave.
pub enum IndexRead {
    /// There is no regular file of that name in the directory.
    Missing,
    /// The file is there but could not be read.
    Failed,
    /// The file's contents.
    Bytes(Vec<u8>),
}

/// The resource served for a file, given what reading it gave: its bytes as
/// `content_type`, or not found when it could not be read.
pub fn file_outcome(content_type: String, read: Option<Vec<u8>>) -> (r: Resolved)
    ensures
        match read {
            Some(bytes) => r == (Resolved::RegularFile { bytes, content_type }),
            None => r is NotFound,
        },
{
    match read {
        Some(bytes) => Resolved::RegularFile { bytes, content_type },
        None => Resolved::NotFound,
    }
}

/// The resource served for a directory, given what reading its index file
/// gave: the index as `content_type`, not found when it could not be read, or
/// `None` when there is no index and the directory is listed instead.
pub fn index_outcome(content_type: String, index: IndexRead) -> (r: Option<Resolved>)
    ensures
        match index {
            IndexRead::Missing => r is None,
            IndexRead::Failed => r == Some(Resolved::NotFound),
            IndexRead::Bytes(bytes) => r == Some(Resolved::DirectoryIndex { bytes, content_type }),
        },
{
    match index {
        IndexRead::Missing => None,
        IndexRead::Failed => Some(Resolved::NotFound),
        IndexRead::Bytes(bytes) => Some(Resolved::DirectoryIndex { bytes, content_type }),
    }
}

/// What is sent back: a status, a media type and a body.
pub struct Reply {
    pub status: u16,
    pub content_type: String,
    pub body: Vec<u8>,
}

/// Appends `s` to a list of lines held in `out`.
fn push_line(out: &mut String, first: bool, s: &str)
    ensures
        final(out)@ == if first {
            old(out)@ + s@
        } else {
            old(out)@ + seq!['\n'] + s@
        },
{
    proof {
        reveal_strlit("\n");
    }
    if !first {
        out.append("\n");
    }
    out.append(s);
}

/// The link to the parent of the directory at relative path `rel`.
fn parent_href_text(rel: &str) -> (r: String)
    ensures
        r@ == parent_href(rel@),
{
    proof {
        reveal_strlit("/");
    }
    let full = String::from_str("/").concat(rel);
    let n = full.unicode_len();
    let cut = match find_last(full.as_str(), '/') {
        Some(i) => i,
        None => 0,
    };
    proof {
        assert(full@ =~= seq!['/'] + rel@);
        assert(full@[0] == '/');
        lemma_last_index_found(full@, '/', 0);
    }
    if cut == 0 {
        assert("/"@ =~= seq!['/']);
        String::from_str("/")
    } else {
        String::from_str(full.as_str().substring_char(0, cut))
    }
}

proof fn lemma_last_index_found(s: Seq<char>, c: char, i: int)
    requires
        0 <= i < s.len(),
        s[i] == c,
    ensures
        i <= last_index(s, c) < s.len(),
    decreases s.len(),
{
    if s.last() != c {
        lemma_last_index_found(s.drop_last(), c, i);
    }
}

/// The entry of one child of the directory at relative path `rel`.
fn child_item_text(rel: &str, e: &DirEntry) -> (r: String)
    ensures
        r@ == child_item(rel@, *e),
{
    proof {
        reveal_strlit("/");
    }
    let href = if rel.unicode_len() == 0 {
        String::from_str("/").concat(e.name.as_str())
    } else {
        String::from_str("/").concat(rel).concat("/").concat(e.name.as_str())
    };
    let mut s = String::from_str(ITEM_OPEN);
    s.append(href.as_str());
    s.append(ITEM_ICON);
    if e.is_dir {
        s.append(FOLDER_ICON);
    } else {
        s.append(FILE_ICON);
    }
    s.append(ITEM_NAME);
    s.append(e.name.as_str());
    s.append(ITEM_SIZE);
    if !e.is_dir {
        let size = fmt_size(e.size);
        s.append(size.as_str());
    }
    s.append(ITEM_CLOSE);
    proof {
        let ghost sz: Seq<char> = if e.is_dir {
            Seq::empty()
        } else {
            size_text(e.size as nat)
        };
        let ghost ic: Seq<char> = if e.is_dir {
            FOLDER_ICON@
        } else {
            FILE_ICON@
        };
        assert(s@ =~= ITEM_OPEN@ + child_href(rel@, e.name@) + ITEM_ICON@ + ic + ITEM_NAME@
            + e.name@ + ITEM_SIZE@ + sz + ITEM_CLOSE@);
    }
    s
}

impl RequestHandler {
    /// The path of a directory at or below the root, relative to the root.
    fn relative_text<'a>(&self, dir: &'a str) -> (r: &'a str)
        ensures
            r@ == relative(self.spec_root(), dir@),
    {
        let rn = self.root.unicode_len();
        let dn = dir.unicode_len();
        if dn <= rn {
            proof {
                reveal_strlit("");
            }
            ""
        } else if rn > 0 && self.root.get_char(rn - 1) == '/' {
            dir.substring_char(rn, dn)
        } else {
            dir.substring_char(rn + 1, dn)
        }
    }

    /// The reply for a resolved request: the resource with status 200, or the
    /// not-found page as HTML with status 404.
    pub fn get_response(&self, resolved: Resolved) -> (r: Reply)
        ensures
            match resolved {
                Resolved::RegularFile { bytes, content_type } | Resolved::DirectoryIndex {
                    bytes,
                    content_type,
                } => r.status == 200 && r.content_type@ == content_type@ && r.body@ == bytes@,
                Resolved::DirectoryListing { html } => r.status == 200 && r.content_type@
                    == "text/html"@ && r.body@ == encode_utf8(html@),
                Resolved::NotFound => r.status == 404 && r.content_type@ == "text/html"@ && r.body@
                    == encode_utf8(NOT_FOUND_PAGE@),
            },
    {
        match resolved {
            Resolved::RegularFile { bytes, content_type } => Reply {
                status: 200,
                content_type,
                body: bytes,
            },
            Resolved::DirectoryIndex { bytes, content_type } => Reply {
                status: 200,
                content_type,
                body: bytes,
            },
            Resolved::DirectoryListing { html } => Reply {
                status: 200,
                content_type: String::from_str("text/html"),
                body: html.as_str().as_bytes_vec(),
            },
            Resolved::NotFound => Reply {
                status: 404,
                content_type: String::from_str("text/html"),
                body: NOT_FOUND_PAGE.as_bytes_vec(),
            },
        }
    }

    /// Renders the listing page of `dir`, a directory at or below the root,
    /// with `entries` its direct children in the order they were read.
    pub fn explorer(&self, dir: &str, entries: &Vec<DirEntry>) -> (r: String)
        ensures
            r@ == listing_page(self.spec_root(), dir@, entries@),
    {
        let rel = self.relative_text(dir);
        let ghost kids = entries@.map_values(|e: DirEntry| child_item(rel@, e));
        let at_root = text_eq(dir, self.root.as_str());
        let mut list = String::new();
        let ghost head: Seq<Seq<char>> = if at_root {
            Seq::empty()
        } else {
            seq![parent_item(parent_href(rel@))]
        };
        if !at_root {
            let up = parent_href_text(rel);
            let mut item = String::from_str(PARENT_OPEN);
            item.append(up.as_str());
            item.append(PARENT_CLOSE);
            push_line(&mut list, true, item.as_str());
            proof {
                assert(seq![parent_item(parent_href(rel@))].drop_last() =~= Seq::<
                    Seq<char>,
                >::empty());
            }
        }
        assert(list@ == join_lines(head));
        let mut i: usize = 0;
        while i < entries.len()
            invariant
                i <= entries@.len(),
                rel@ == relative(self.spec_root(), dir@),
                kids == entries@.map_values(|e: DirEntry| child_item(rel@, e)),
                list@ == join_lines(head + kids.take(i as int)),
                head.len() == if at_root {
                    0int
                } else {
                    1int
                },
            decreases entries@.len() - i,
        {
            let item = child_item_text(rel, &entries[i]);
            let ghost before = head + kids.take(i as int);
            let first = at_root && i == 0;
            push_line(&mut list, first, item.as_str());
            proof {
                assert(kids[i as int] == child_item(rel@, entries@[i as int]));
                assert(item@ == kids[i as int]);
                let after = head + kids.take(i + 1);
                assert(after =~= before.push(kids[i as int]));
                assert(after.drop_last() =~= before);
            }
            i = i + 1;
        }
        proof {
            assert(kids.take(entries@.len() as int) =~= kids);
            assert(head + kids =~= listing_items(self.spec_root(), dir@, entries@));
        }
        proof {
            reveal_strlit("/");
        }
        let mut page = String::from_str(PAGE_HEAD);
        page.append("/");
        page.append(rel);
        page.append(PAGE_MID);
        page.append(list.as_str());
        page.append(PAGE_TAIL);
        page
    }
}

} // verus!
