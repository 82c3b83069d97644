//! Open documents: their paths and names, and the list of them, the last of
//! which is the active one.

use vstd::prelude::*;
use crate::helpers::{CoordType, Point};
use crate::path::spec_normalize_path;
use crate::text::{decimal, digits_value, extend_bytes, is_digits, lemma_digits_value_nonneg, push_decimal, str_bytes};
use vstd::string::StringSliceAdditionalSpecFns;

verus! {

/// A file's identity on its file system (device and inode, or the like).
pub type FileId = (u64, u64);

/// An open document. The text itself lives in the editor's text buffer; this
/// is what the editor keeps beside it.
pub struct Document {
    /// The absolute, normalized path, if the document has one.
    pub path: Option<Vec<u8>>,
    /// The directory of the path.
    pub dir: Option<Vec<u8>>,
    /// The name shown for the document.
    pub filename: Vec<u8>,
    /// The identity of the file last read or written.
    pub file_id: Option<FileId>,
    /// The number in `Untitled-<n>.txt`, 0 for a document with a path.
    pub new_file_counter: usize,
    /// A language chosen by the user (by id, `None` for plain text), if any.
    pub language_override: Option<Option<&'static str>>,
    /// The ruler column of the buffer (72 for Git commit messages, else 0).
    pub ruler: CoordType,
    /// Whether the buffer has unsaved changes.
    pub dirty: bool,
}

/// The mathematical content of a document.
pub struct DocumentView {
    pub path: Option<Seq<u8>>,
    pub dir: Option<Seq<u8>>,
    pub filename: Seq<u8>,
    pub file_id: Option<FileId>,
    pub new_file_counter: nat,
    pub language_override: Option<Option<&'static str>>,
    pub ruler: CoordType,
    pub dirty: bool,
}

pub open spec fn opt_seq(v: Option<Vec<u8>>) -> Option<Seq<u8>> {
    match v {
        Some(b) => Some(b@),
        None => None,
    }
}

impl View for Document {
    type V = DocumentView;

    open spec fn view(&self) -> DocumentView {
        DocumentView {
            path: opt_seq(self.path),
            dir: opt_seq(self.dir),
            filename: self.filename@,
            file_id: self.file_id,
            new_file_counter: self.new_file_counter as nat,
            language_override: self.language_override,
            ruler: self.ruler,
            dirty: self.dirty,
        }
    }
}

/// The offset of the last `/` before `end`, if any.
pub open spec fn last_slash(p: Seq<u8>, end: int) -> Option<int>
    decreases end,
{
    if end <= 0 || end > p.len() {
        None
    } else if p[end - 1] == 0x2f {
        Some(end - 1)
    } else {
        last_slash(p, end - 1)
    }
}

/// Whether `p` is an absolute path in normal form.
pub open spec fn is_normal_path(p: Seq<u8>) -> bool {
    p.len() > 0 && p[0] == 0x2f && spec_normalize_path(p) == p
}

/// The file name of a normalized path: what follows its last `/` (empty for the root).
pub open spec fn spec_file_name(p: Seq<u8>) -> Seq<u8> {
    match last_slash(p, p.len() as int) {
        Some(k) => p.skip(k + 1),
        None => Seq::empty(),
    }
}

/// The directory of a normalized path: what precedes its last `/` (the root
/// for a file in the root, empty for the root itself).
pub open spec fn spec_dir(p: Seq<u8>) -> Seq<u8> {
    if p.len() <= 1 {
        Seq::empty()
    } else {
        match last_slash(p, p.len() as int) {
            Some(k) => if k == 0 {
                seq![0x2fu8]
            } else {
                p.take(k)
            },
            None => Seq::empty(),
        }
    }
}

/// The document after it took the path `p`: its name, directory and path, and
/// a ruler at column 72 for Git commit messages.
pub open spec fn with_path(d: DocumentView, p: Seq<u8>) -> DocumentView {
    DocumentView {
        path: Some(p),
        dir: Some(spec_dir(p)),
        filename: spec_file_name(p),
        ruler: if spec_file_name(p) == "COMMIT_EDITMSG".spec_bytes() { 72 } else { 0 },
        ..d
    }
}

fn find_last_slash(p: &[u8]) -> (r: Option<usize>)
    ensures
        match r {
            Some(k) => last_slash(p@, p@.len() as int) == Some(k as int) && k < p@.len(),
            None => last_slash(p@, p@.len() as int) is None,
        },
{
    let mut end = p.len();
    while end > 0 && p[end - 1] != 0x2f
        invariant
            end <= p@.len(),
            last_slash(p@, end as int) == last_slash(p@, p@.len() as int),
        decreases end,
    {
        end -= 1;
    }
    if end == 0 {
        None
    } else {
        Some(end - 1)
    }
}

impl Document {
    /// A new, empty document without a path.
    pub fn new() -> (d: Document)
        ensures
            d@ == (DocumentView {
                path: None,
                dir: None,
                filename: Seq::empty(),
                file_id: None,
                new_file_counter: 0,
                language_override: None,
                ruler: 0,
                dirty: false,
            }),
    {
        Document {
            path: None,
            dir: None,
            filename: Vec::new(),
            file_id: None,
            new_file_counter: 0,
            language_override: None,
            ruler: 0,
            dirty: false,
        }
    }

    /// Takes the path: its file name, directory, and the ruler it calls for.
    fn set_path(&mut self, path: Vec<u8>)
        requires
            is_normal_path(path@),
        ensures
            final(self)@ == with_path(old(self)@, path@),
    {
        let slash = find_last_slash(path.as_slice());
        let n = path.len();
        let filename = match slash {
            Some(k) => vstd::slice::slice_to_vec(&path.as_slice()[k + 1..n]),
            None => Vec::new(),
        };
        let dir = if path.len() <= 1 {
            Vec::new()
        } else {
            match slash {
                Some(k) => if k == 0 {
                    vec![0x2fu8]
                } else {
                    vstd::slice::slice_to_vec(&path.as_slice()[0..k])
                },
                None => Vec::new(),
            }
        };
        proof {
            match slash {
                Some(k) => {
                    assert(filename@ =~= path@.skip(k + 1));
                    if path@.len() > 1 && k != 0 {
                        assert(dir@ =~= path@.take(k as int));
                    }
                    if path@.len() > 1 && k == 0 {
                        assert(dir@ =~= seq![0x2fu8]);
                    }
                },
                None => {},
            }
        }
        self.ruler = if crate::text::bytes_eq(filename.as_slice(), str_bytes("COMMIT_EDITMSG")) {
            72
        } else {
            0
        };
        self.filename = filename;
        self.dir = Some(dir);
        self.path = Some(path);
    }

    /// Records a save: the file written (`written_id`, where its identity could
    /// be read) and, for a save under a new path, that path.
    pub fn save(&mut self, new_path: Option<Vec<u8>>, written_id: Option<FileId>)
        requires
            new_path is Some || old(self).path is Some,
            new_path matches Some(p) ==> is_normal_path(p@),
        ensures
            ({
                let d1 = match written_id {
                    Some(id) => DocumentView { file_id: Some(id), ..old(self)@ },
                    None => old(self)@,
                };
                final(self)@ == match new_path {
                    Some(p) => with_path(d1, p@),
                    None => d1,
                }
            }),
    {
        if let Some(id) = written_id {
            self.file_id = Some(id);
        }
        if let Some(path) = new_path {
            self.set_path(path);
        }
    }

    /// Records a re-read from the document's path: the identity of the file read,
    /// where it could be read.
    pub fn reread(&mut self, read_id: Option<FileId>)
        requires
            old(self).path is Some,
        ensures
            final(self)@ == match read_id {
                Some(id) => DocumentView { file_id: Some(id), ..old(self)@ },
                None => old(self)@,
            },
    {
        if let Some(id) = read_id {
            self.file_id = Some(id);
        }
    }

    /// Drops a language chosen by the user: the language follows the path again.
    pub fn auto_detect_language(&mut self)
        ensures
            final(self)@ == (DocumentView { language_override: None, ..old(self)@ }),
    {
        self.language_override = None;
    }

    /// Chooses a language (by id, `None` for plain text), whatever the path says.
    pub fn override_language(&mut self, lang: Option<&'static str>)
        ensures
            final(self)@ == (DocumentView { language_override: Some(lang), ..old(self)@ }),
    {
        self.language_override = Some(lang);
    }
}


/// The list of open documents; the last one is the active one.
pub struct DocumentManager {
    list: Vec<Document>,
}

/// The views of a list of documents.
pub open spec fn views(l: Seq<Document>) -> Seq<DocumentView> {
    l.map_values(|d: Document| d@)
}

impl View for DocumentManager {
    type V = Seq<DocumentView>;

    closed spec fn view(&self) -> Seq<DocumentView> {
        views(self.list@)
    }
}

/// The largest untitled-document number in the list (0 for none).
pub open spec fn max_counter(l: Seq<DocumentView>) -> nat
    decreases l.len(),
{
    if l.len() == 0 {
        0
    } else {
        let m = max_counter(l.drop_last());
        if l.last().new_file_counter > m {
            l.last().new_file_counter
        } else {
            m
        }
    }
}

/// `Untitled-<n>.txt`.
pub open spec fn untitled_name(n: nat) -> Seq<u8> {
    "Untitled-".spec_bytes() + decimal(n) + ".txt".spec_bytes()
}

/// The index of the last document before `end` with the file identity `id`.
pub open spec fn last_with_id(l: Seq<DocumentView>, id: Option<FileId>, end: int) -> Option<int>
    decreases end,
{
    if end <= 0 || end > l.len() {
        None
    } else if l[end - 1].file_id == id {
        Some(end - 1)
    } else {
        last_with_id(l, id, end - 1)
    }
}

/// The documents after adding one for the file at `path` with identity
/// `file_id`: a pristine active document is dropped, and the new one is last.
pub open spec fn added_file(l: Seq<DocumentView>, path: Seq<u8>, file_id: Option<FileId>) -> Seq<
    DocumentView,
> {
    let doc = with_path(
        DocumentView {
            path: None,
            dir: None,
            filename: Seq::empty(),
            file_id,
            new_file_counter: 0,
            language_override: None,
            ruler: 0,
            dirty: false,
        },
        path,
    );
    let kept = if l.len() > 0 && is_pristine(l.last()) {
        l.drop_last()
    } else {
        l
    };
    kept.push(doc)
}

/// A document that can go unnoticed: no path, no file, no changes.
pub open spec fn is_pristine(d: DocumentView) -> bool {
    d.path is None && d.file_id is None && !d.dirty
}

impl DocumentManager {
    /// No documents.
    pub fn new() -> (m: DocumentManager)
        ensures
            m@ == Seq::<DocumentView>::empty(),
    {
        let m = DocumentManager { list: Vec::new() };
        assert(m@ =~= Seq::<DocumentView>::empty());
        m
    }

    /// The number of open documents.
    pub fn len(&self) -> (n: usize)
        ensures
            n == self@.len(),
    {
        self.list.len()
    }

    /// The active document: the last one.
    pub fn active(&self) -> (r: Option<&Document>)
        ensures
            match r {
                Some(d) => self@.len() > 0 && d@ == self@.last(),
                None => self@.len() == 0,
            },
    {
        let n = self.list.len();
        if n == 0 {
            None
        } else {
            Some(&self.list[n - 1])
        }
    }

    /// The active document, for changing it.
    pub fn active_mut(&mut self) -> (r: Option<&mut Document>)
        ensures
            match r {
                Some(d) => old(self)@.len() > 0 && (*d)@ == old(self)@.last() && final(self)@ == old(
                    self,
                )@.update(old(self)@.len() - 1, (*final(d))@),
                None => old(self)@.len() == 0 && final(self)@ == old(self)@,
            },
    {
        let n = self.list.len();
        if n == 0 {
            None
        } else {
            Some(&mut self.list[n - 1])
        }
    }

    /// Closes the active document.
    pub fn remove_active(&mut self)
        ensures
            final(self)@ == if old(self)@.len() > 0 {
                old(self)@.drop_last()
            } else {
                old(self)@
            },
    {
        let _ = self.list.pop();
        proof {
            assert(views(self.list@) =~= if views(old(self).list@).len() > 0 {
                views(old(self).list@).drop_last()
            } else {
                views(old(self).list@)
            });
        }
    }

    /// Names a new document `Untitled-<n>.txt`, with `n` one above every
    /// number the open documents carry.
    pub fn gen_untitled_name(&self, doc: &mut Document)
        requires
            max_counter(self@) < usize::MAX,
        ensures
            final(doc)@ == (DocumentView {
                filename: untitled_name(max_counter(self@) + 1),
                new_file_counter: max_counter(self@) + 1,
                ..old(doc)@
            }),
    {
        let mut new_file_counter = self.max_untitled_counter();
        new_file_counter += 1;
        let mut name = vstd::slice::slice_to_vec(str_bytes("Untitled-"));
        push_decimal(&mut name, new_file_counter as u64);
        extend_bytes(&mut name, str_bytes(".txt"));
        doc.filename = name;
        doc.new_file_counter = new_file_counter;
    }

    /// The largest untitled-document number among the open documents (0 for none).
    pub fn max_untitled_counter(&self) -> (n: usize)
        ensures
            n == max_counter(self@),
    {
        let mut new_file_counter: usize = 0;
        let mut i: usize = 0;
        while i < self.list.len()
            invariant
                i <= self.list@.len(),
                new_file_counter == max_counter(views(self.list@).take(i as int)),
                self@ == views(self.list@),
            decreases self.list@.len() - i,
        {
            let c = self.list[i].new_file_counter;
            proof {
                assert(views(self.list@).take(i + 1).drop_last() =~= views(self.list@).take(i as int));
            }
            if c > new_file_counter {
                new_file_counter = c;
            }
            i += 1;
        }
        proof {
            assert(views(self.list@).take(i as int) =~= views(self.list@));
        }
        new_file_counter
    }

    /// Opens a new untitled document and makes it the active one.
    pub fn add_untitled(&mut self)
        requires
            max_counter(old(self)@) < usize::MAX,
        ensures
            final(self)@ == old(self)@.push(
                DocumentView {
                    path: None,
                    dir: None,
                    filename: untitled_name(max_counter(old(self)@) + 1),
                    file_id: None,
                    new_file_counter: max_counter(old(self)@) + 1,
                    language_override: None,
                    ruler: 0,
                    dirty: false,
                },
            ),
    {
        let mut doc = Document::new();
        self.gen_untitled_name(&mut doc);
        self.list.push(doc);
        proof {
            assert(views(self.list@) =~= views(old(self).list@).push(doc@));
        }
    }

    /// Makes the last document with file identity `file_id` the active one,
    /// moving it to the end. Returns whether it moved: not where no document
    /// has the identity, nor where the active one has it.
    pub fn update_active(&mut self, file_id: Option<FileId>) -> (moved: bool)
        ensures
            match last_with_id(old(self)@, file_id, old(self)@.len() as int) {
                Some(k) => if k == old(self)@.len() - 1 {
                    !moved && final(self)@ == old(self)@
                } else {
                    moved && final(self)@ == old(self)@.remove(k).push(old(self)@[k])
                },
                None => !moved && final(self)@ == old(self)@,
            },
    {
        let n = self.list.len();
        let mut end = n;
        while end > 0 && self.list[end - 1].file_id != file_id
            invariant
                end <= n,
                n == self.list@.len(),
                self@ == views(self.list@),
                last_with_id(self@, file_id, end as int) == last_with_id(self@, file_id, n as int),
            decreases end,
        {
            end -= 1;
        }
        if end == 0 {
            return false;
        }
        let idx = end - 1;
        if idx == n - 1 {
            return false;
        }
        let doc = self.list.remove(idx);
        self.list.push(doc);
        proof {
            assert(views(self.list@) =~= views(old(self).list@).remove(idx as int).push(views(old(self).list@)[idx as int]));
        }
        true
    }

    /// Opens the file at `path` (absolute and normalized) with the identity
    /// `file_id` (where the file exists). A document already open on that file,
    /// unless it is the active one, is made active (and `true` returned);
    /// otherwise a new document for the file becomes the active one, and a
    /// pristine untitled active document gives way to it.
    pub fn add_file_path(&mut self, path: Vec<u8>, file_id: Option<FileId>) -> (reused: bool)
        requires
            is_normal_path(path@),
        ensures
            ({
                let found = last_with_id(old(self)@, file_id, old(self)@.len() as int);
                let reuse = file_id is Some && found is Some && found->0 != old(self)@.len() - 1;
                &&& reused == reuse
                &&& reuse ==> final(self)@ == old(self)@.remove(found->0).push(old(self)@[found->0])
                &&& !reuse ==> final(self)@ == added_file(old(self)@, path@, file_id)
            }),
    {
        if file_id.is_some() && self.update_active(file_id) {
            return true;
        }
        self.push_file_document(path, file_id);
        false
    }

    /// Adds the document for the file at `path` with the identity `file_id` and
    /// makes it the active one; a pristine untitled active document gives way to it.
    fn push_file_document(&mut self, path: Vec<u8>, file_id: Option<FileId>)
        requires
            is_normal_path(path@),
        ensures
            final(self)@ == added_file(old(self)@, path@, file_id),
    {
        let mut doc = Document::new();
        doc.file_id = file_id;
        doc.set_path(path);
        let n = self.list.len();
        if n > 0 {
            let active = &self.list[n - 1];
            if active.path.is_none() && active.file_id.is_none() && !active.dirty {
                self.remove_active();
            }
        }
        let ghost before = self@;
        self.list.push(doc);
        proof {
            assert(views(self.list@) =~= before.push(doc@));
        }
    }

    /// The file name, line and column of `name:line:column` or `name:line`
    /// (1-based numbers; 0 counts as 1): the name without the suffix, and the
    /// position (0-based; `x` the column, `y` the line). Names that would end
    /// up empty are left as they are.
    pub fn parse_filename_goto(path: &[u8]) -> (r: (&[u8], Option<Point>))
        ensures
            r.0@ == path@.take(spec_parse_filename_goto(path@).0),
            r.1 == spec_parse_filename_goto(path@).1,
    {
        let n = path.len();
        let colend = match find_colon_rev(path, n) {
            Some(c) if c > 0 => c,
            _ => {
                return (path, None);
            },
        };
        let last = match parse_coord(&path[colend + 1..n]) {
            Some(v) => v,
            None => {
                return (path, None);
            },
        };
        let last = if last - 1 > 0 { last - 1 } else { 0 };
        let mut len = colend;
        let mut goto = Point { x: 0, y: last };
        if let Some(colbeg) = find_colon_rev(path, colend) {
            if colbeg != 0 {
                if let Some(first) = parse_coord(&path[colbeg + 1..colend]) {
                    let first = if first - 1 > 0 { first - 1 } else { 0 };
                    len = colbeg;
                    goto = Point { x: last, y: first };
                }
            }
        }
        (&path[0..len], Some(goto))
    }
}

/// The last `:` before `off` (clamped to the length).
pub open spec fn colon_rev(p: Seq<u8>, off: int) -> Option<int>
    decreases off,
{
    if off <= 0 {
        None
    } else if off > p.len() {
        colon_rev(p, p.len() as int)
    } else if p[off - 1] == 0x3a {
        Some(off - 1)
    } else {
        colon_rev(p, off - 1)
    }
}

fn find_colon_rev(p: &[u8], off: usize) -> (r: Option<usize>)
    ensures
        match r {
            Some(k) => colon_rev(p@, off as int) == Some(k as int) && k < off && k < p@.len(),
            None => colon_rev(p@, off as int) is None,
        },
{
    let mut end = if off < p.len() { off } else { p.len() };
    assert(colon_rev(p@, end as int) == colon_rev(p@, off as int));
    while end > 0 && p[end - 1] != 0x3a
        invariant
            end <= p@.len(),
            end <= off,
            colon_rev(p@, end as int) == colon_rev(p@, off as int),
        decreases end,
    {
        end -= 1;
    }
    if end == 0 {
        None
    } else {
        Some(end - 1)
    }
}

/// A line or column number: one or more digits, in range.
pub open spec fn spec_parse_coord(s: Seq<u8>) -> Option<CoordType> {
    if s.len() == 0 || !is_digits(s) || digits_value(s) > isize::MAX {
        None
    } else {
        Some(digits_value(s) as CoordType)
    }
}

fn parse_coord(s: &[u8]) -> (r: Option<CoordType>)
    ensures
        r == spec_parse_coord(s@),
        r matches Some(v) ==> v >= 0,
{
    proof {
        if s@.len() > 0 && (s@[0] == 0x2b || s@[0] == 0x2d) {
            assert(!crate::text::is_ascii_digit(s@[0]));
            assert(!is_digits(s@));
        }
        if is_digits(s@) {
            lemma_digits_value_nonneg(s@);
        }
    }
    match crate::text::parse_isize(s) {
        Some(v) => {
            if s.len() > 0 && s[0] != 0x2b && s[0] != 0x2d {
                proof {
                    assert(s@.skip(0) =~= s@);
                }
                Some(v)
            } else {
                None
            }
        },
        None => {
            proof {
                if s@.len() > 0 && s@[0] != 0x2b && s@[0] != 0x2d {
                    assert(s@.skip(0) =~= s@);
                }
            }
            None
        },
    }
}

/// 1-based to 0-based, not below 0.
pub open spec fn to_zero_based(v: CoordType) -> CoordType {
    if v - 1 > 0 {
        (v - 1) as CoordType
    } else {
        0
    }
}

/// `name:line:column` or `name:line`: the length of the name, and the position.
pub open spec fn spec_parse_filename_goto(p: Seq<u8>) -> (int, Option<Point>) {
    match colon_rev(p, p.len() as int) {
        Some(colend) if colend > 0 => match spec_parse_coord(p.subrange(colend + 1, p.len() as int)) {
            None => (p.len() as int, None),
            Some(last) => {
                let last = to_zero_based(last);
                match colon_rev(p, colend) {
                    Some(colbeg) if colbeg != 0 && spec_parse_coord(p.subrange(colbeg + 1, colend)) is Some => {
                        let first = to_zero_based(spec_parse_coord(p.subrange(colbeg + 1, colend))->Some_0);
                        (colbeg, Some(Point { x: last, y: first }))
                    },
                    _ => (colend, Some(Point { x: 0, y: last })),
                }
            },
        },
        _ => (p.len() as int, None),
    }
}

} // verus!
