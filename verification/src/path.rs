//! File paths as rows of raw names.

use vstd::prelude::*;

use crate::duplicate::Duplicate;
use crate::ordered_map::OrderedKey;
use crate::text::{lower_text, to_lower_text};
use crate::utf8::{copy_bytes, decode, decode_lossy, lossy_text, text_of};

verus! {

/// A path: the names of its components, the root directory being named `/`.
///
/// Names are raw bytes, because a file system does not ask for UTF-8.
#[derive(Debug, PartialEq, Eq)]
pub struct FilePath {
    pub parts: Vec<Vec<u8>>,
}

impl DeepView for FilePath {
    type V = Seq<Seq<u8>>;

    open spec fn deep_view(&self) -> Seq<Seq<u8>> {
        self.parts@.map_values(|part: Vec<u8>| part@)
    }
}

impl Duplicate for FilePath {
    fn duplicate(&self) -> (r: Self) {
        let r = FilePath { parts: copy_parts(&self.parts, 0, self.parts.len()) };
        assert(r.deep_view() =~= self.deep_view());
        r
    }
}

impl Clone for FilePath {
    fn clone(&self) -> (r: Self)
        ensures
            r.deep_view() == self.deep_view(),
    {
        self.duplicate()
    }
}

/// A copy of the parts `from..to`.
fn copy_parts(parts: &Vec<Vec<u8>>, from: usize, to: usize) -> (r: Vec<Vec<u8>>)
    requires
        from <= to <= parts@.len(),
    ensures
        r@.len() == to - from,
        forall|j: int| 0 <= j < to - from ==> (#[trigger] r@[j])@ == parts@[from + j]@,
{
    let mut out: Vec<Vec<u8>> = Vec::new();
    let mut i: usize = from;
    while i < to
        invariant
            from <= i <= to <= parts@.len(),
            out@.len() == i - from,
            forall|j: int| 0 <= j < i - from ==> (#[trigger] out@[j])@ == parts@[from + j]@,
        decreases to - i,
    {
        out.push(copy_bytes(&parts[i]));
        i = i + 1;
    }
    out
}

/// Rows of bytes in lexicographic order.
pub open spec fn bytes_less(a: Seq<u8>, b: Seq<u8>) -> bool
    decreases a.len(),
{
    if b.len() == 0 {
        false
    } else if a.len() == 0 {
        true
    } else if a[0] != b[0] {
        a[0] < b[0]
    } else {
        bytes_less(a.drop_first(), b.drop_first())
    }
}

/// Paths in lexicographic order of their parts.
pub open spec fn path_less(a: Seq<Seq<u8>>, b: Seq<Seq<u8>>) -> bool
    decreases a.len(),
{
    if b.len() == 0 {
        false
    } else if a.len() == 0 {
        true
    } else if a[0] != b[0] {
        bytes_less(a[0], b[0])
    } else {
        path_less(a.drop_first(), b.drop_first())
    }
}

proof fn lemma_bytes_less_irreflexive(a: Seq<u8>)
    ensures
        !bytes_less(a, a),
    decreases a.len(),
{
    if a.len() > 0 {
        lemma_bytes_less_irreflexive(a.drop_first());
    }
}

proof fn lemma_bytes_less_transitive(a: Seq<u8>, b: Seq<u8>, c: Seq<u8>)
    requires
        bytes_less(a, b),
        bytes_less(b, c),
    ensures
        bytes_less(a, c),
    decreases a.len(),
{
    if a.len() > 0 && b.len() > 0 && c.len() > 0 && a[0] == b[0] && b[0] == c[0] {
        lemma_bytes_less_transitive(a.drop_first(), b.drop_first(), c.drop_first());
    }
}

proof fn lemma_bytes_less_total(a: Seq<u8>, b: Seq<u8>)
    ensures
        a == b || bytes_less(a, b) || bytes_less(b, a),
    decreases a.len(),
{
    if a.len() > 0 && b.len() > 0 {
        if a[0] == b[0] {
            lemma_bytes_less_total(a.drop_first(), b.drop_first());
            if a.drop_first() == b.drop_first() {
                assert(a =~= seq![a[0]] + a.drop_first());
                assert(b =~= seq![b[0]] + b.drop_first());
            }
        }
    } else if a.len() == 0 && b.len() == 0 {
        assert(a =~= b);
    }
}

fn bytes_before(x: &Vec<u8>, y: &Vec<u8>) -> (r: bool)
    ensures
        r == bytes_less(x@, y@),
{
    let mut i: usize = 0;
    assert(x@.skip(0) =~= x@ && y@.skip(0) =~= y@);
    while i < x.len() && i < y.len()
        invariant
            i <= x@.len(),
            i <= y@.len(),
            bytes_less(x@, y@) == bytes_less(x@.skip(i as int), y@.skip(i as int)),
        decreases x@.len() - i,
    {
        if x[i] != y[i] {
            return x[i] < y[i];
        }
        assert(x@.skip(i as int).drop_first() =~= x@.skip(i + 1));
        assert(y@.skip(i as int).drop_first() =~= y@.skip(i + 1));
        i = i + 1;
    }
    i < y.len()
}

/// Whether two rows of bytes are equal.
pub fn same_bytes(x: &Vec<u8>, y: &Vec<u8>) -> (r: bool)
    ensures
        r == (x@ == y@),
{
    if x.len() != y.len() {
        return false;
    }
    let mut i: usize = 0;
    while i < x.len()
        invariant
            i <= x@.len(),
            x@.len() == y@.len(),
            forall|j: int| 0 <= j < i ==> x@[j] == y@[j],
        decreases x@.len() - i,
    {
        if x[i] != y[i] {
            return false;
        }
        i = i + 1;
    }
    assert(x@ =~= y@);
    true
}

impl OrderedKey for FilePath {
    open spec fn less(a: Seq<Seq<u8>>, b: Seq<Seq<u8>>) -> bool {
        path_less(a, b)
    }

    proof fn less_irreflexive(a: Seq<Seq<u8>>)
        decreases a.len(),
    {
        if a.len() > 0 {
            Self::less_irreflexive(a.drop_first());
        }
    }

    proof fn less_transitive(a: Seq<Seq<u8>>, b: Seq<Seq<u8>>, c: Seq<Seq<u8>>)
        decreases a.len(),
    {
        if a.len() > 0 && b.len() > 0 && c.len() > 0 {
            if a[0] == b[0] && b[0] == c[0] {
                Self::less_transitive(a.drop_first(), b.drop_first(), c.drop_first());
            } else if a[0] != b[0] && b[0] != c[0] {
                lemma_bytes_less_transitive(a[0], b[0], c[0]);
                lemma_bytes_less_irreflexive(a[0]);
            }
        }
    }

    proof fn less_total(a: Seq<Seq<u8>>, b: Seq<Seq<u8>>)
        decreases a.len(),
    {
        if a.len() > 0 && b.len() > 0 {
            if a[0] == b[0] {
                Self::less_total(a.drop_first(), b.drop_first());
                if a.drop_first() == b.drop_first() {
                    assert(a =~= seq![a[0]] + a.drop_first());
                    assert(b =~= seq![b[0]] + b.drop_first());
                }
            } else {
                lemma_bytes_less_total(a[0], b[0]);
            }
        } else if a.len() == 0 && b.len() == 0 {
            assert(a =~= b);
        }
    }

    fn before(&self, other: &Self) -> (r: bool) {
        let mut i: usize = 0;
        let ghost x = self.deep_view();
        let ghost y = other.deep_view();
        assert(x.skip(0) =~= x && y.skip(0) =~= y);
        while i < self.parts.len() && i < other.parts.len()
            invariant
                i <= x.len(),
                i <= y.len(),
                x == self.deep_view(),
                y == other.deep_view(),
                path_less(x, y) == path_less(x.skip(i as int), y.skip(i as int)),
            decreases x.len() - i,
        {
            if !same_bytes(&self.parts[i], &other.parts[i]) {
                return bytes_before(&self.parts[i], &other.parts[i]);
            }
            assert(x.skip(i as int).drop_first() =~= x.skip(i + 1));
            assert(y.skip(i as int).drop_first() =~= y.skip(i + 1));
            i = i + 1;
        }
        i < other.parts.len()
    }
}

/// Whether a part names an entry of a directory: not the root, `.` or `..`.
pub open spec fn is_name(part: Seq<u8>) -> bool {
    part != seq![47u8] && part != seq![46u8] && part != seq![46u8, 46u8]
}

/// The last part of a path, where it names an entry of a directory.
pub open spec fn file_name_of(path: Seq<Seq<u8>>) -> Option<Seq<u8>> {
    if path.len() > 0 && is_name(path.last()) {
        Some(path.last())
    } else {
        None
    }
}

/// `i` is the position of the last full stop in `name`.
pub open spec fn last_dot(name: Seq<u8>, i: int) -> bool {
    &&& 0 <= i < name.len()
    &&& name[i] == 46u8
    &&& forall|j: int| i < j < name.len() ==> name[j] != 46u8
}

/// What follows the last full stop of a name that does not start with it.
pub open spec fn extension_of(name: Seq<u8>) -> Option<Seq<u8>> {
    if exists|i: int| last_dot(name, i) && i > 0 {
        let i = choose|i: int| last_dot(name, i) && i > 0;
        Some(name.skip(i + 1))
    } else {
        None
    }
}

/// A name without its extension and the full stop before that.
pub open spec fn stem_of(name: Seq<u8>) -> Seq<u8> {
    match extension_of(name) {
        Some(extension) => name.take(name.len() - extension.len() - 1),
        None => name,
    }
}

/// The extension of a path in lower case, where it is text.
pub open spec fn extension_text(path: Seq<Seq<u8>>) -> Option<Seq<char>> {
    match file_name_of(path) {
        Some(name) => match extension_of(name) {
            Some(extension) => match text_of(extension) {
                Some(text) => Some(lower_text(text)),
                None => None,
            },
            None => None,
        },
        None => None,
    }
}

/// The path without its last part.
pub open spec fn parent_of(path: Seq<Seq<u8>>) -> Option<Seq<Seq<u8>>> {
    if path.len() == 0 || path == seq![seq![47u8]] {
        None
    } else {
        Some(path.drop_last())
    }
}

/// The rest of a path that starts with `root`.
pub open spec fn below(path: Seq<Seq<u8>>, root: Seq<Seq<u8>>) -> Option<Seq<Seq<u8>>> {
    if root.is_prefix_of(path) {
        Some(path.skip(root.len() as int))
    } else {
        None
    }
}

/// Where `path` leads when it starts at `base`.
pub open spec fn joined(base: Seq<Seq<u8>>, path: Seq<Seq<u8>>) -> Seq<Seq<u8>> {
    if path.len() > 0 && path[0] == seq![47u8] {
        path
    } else {
        base + path
    }
}

/// The raw bytes of a path, its parts separated by `/`.
pub open spec fn path_bytes(path: Seq<Seq<u8>>) -> Seq<u8>
    decreases path.len(),
{
    if path.len() == 0 {
        seq![]
    } else {
        let head = path_bytes(path.drop_last());
        if head.len() == 0 || head.last() == 47u8 {
            head + path.last()
        } else {
            head.push(47u8) + path.last()
        }
    }
}

/// A path as it is shown.
pub open spec fn path_text(path: Seq<Seq<u8>>) -> Seq<char> {
    lossy_text(path_bytes(path))
}

/// A part as text, where it is text.
fn part_text(part: &Vec<u8>) -> (r: Option<String>)
    ensures
        r.deep_view() == text_of(part@),
{
    decode(copy_bytes(part))
}

fn is_name_part(part: &Vec<u8>) -> (r: bool)
    ensures
        r == is_name(part@),
{
    proof {
        assert(part@.len() == 1 && part@[0] == 47u8 ==> part@ =~= seq![47u8]);
        assert(part@.len() == 1 && part@[0] == 46u8 ==> part@ =~= seq![46u8]);
        assert(part@.len() == 2 && part@[0] == 46u8 && part@[1] == 46u8 ==> part@ =~= seq![
            46u8,
            46u8,
        ]);
    }
    !(part.len() == 1 && (part[0] == 47 || part[0] == 46) || part.len() == 2 && part[0] == 46
        && part[1] == 46)
}

/// The position of the full stop before the extension of `name`.
fn extension_dot(name: &Vec<u8>) -> (r: Option<usize>)
    ensures
        match r {
            Some(i) => i < name@.len() && extension_of(name@) == Some(name@.skip(i + 1)),
            None => extension_of(name@) is None,
        },
{
    let mut i: usize = name.len();
    while i > 1
        invariant
            i <= name@.len(),
            forall|j: int| i <= j < name@.len() ==> name@[j] != 46u8,
        decreases i,
    {
        i = i - 1;
        if name[i] == 46 {
            proof {
                assert(last_dot(name@, i as int) && i > 0);
                let c = choose|c: int| last_dot(name@, c) && c > 0;
                assert(c == i);
            }
            return Some(i);
        }
    }
    None
}

fn bytes_between(bytes: &Vec<u8>, from: usize, to: usize) -> (r: Vec<u8>)
    requires
        from <= to <= bytes@.len(),
    ensures
        r@ == bytes@.subrange(from as int, to as int),
{
    let mut out: Vec<u8> = Vec::new();
    let mut i: usize = from;
    while i < to
        invariant
            from <= i <= to <= bytes@.len(),
            out@ == bytes@.subrange(from as int, i as int),
        decreases to - i,
    {
        out.push(bytes[i]);
        i = i + 1;
        assert(bytes@.subrange(from as int, i as int) =~= bytes@.subrange(from as int, i - 1).push(
            bytes@[i - 1],
        ));
    }
    out
}

impl FilePath {
    /// The name of the file as text, where it is text.
    pub fn file_name_text(&self) -> (r: Option<String>)
        ensures
            r.deep_view() == match file_name_of(self.deep_view()) {
                Some(name) => text_of(name),
                None => None,
            },
    {
        let n: usize = self.parts.len();
        if n > 0 && is_name_part(&self.parts[n - 1]) {
            part_text(&self.parts[n - 1])
        } else {
            None
        }
    }

    /// The name of the file without its extension, where that is text.
    pub fn stem_text(&self) -> (r: Option<String>)
        ensures
            r.deep_view() == match file_name_of(self.deep_view()) {
                Some(name) => text_of(stem_of(name)),
                None => None,
            },
    {
        let n: usize = self.parts.len();
        if n > 0 && is_name_part(&self.parts[n - 1]) {
            let name = &self.parts[n - 1];
            match extension_dot(name) {
                Some(i) => {
                    let stem = bytes_between(name, 0, i);
                    assert(stem@ =~= stem_of(name@));
                    decode(stem)
                },
                None => part_text(name),
            }
        } else {
            None
        }
    }

    /// The extension of the file in lower case, where it is text.
    pub fn extension(&self) -> (r: Option<String>)
        ensures
            r.deep_view() == extension_text(self.deep_view()),
    {
        let n: usize = self.parts.len();
        if n > 0 && is_name_part(&self.parts[n - 1]) {
            let name = &self.parts[n - 1];
            match extension_dot(name) {
                Some(i) => {
                    let total: usize = name.len();
                    let extension = bytes_between(name, i + 1, total);
                    assert(extension@ =~= name@.skip(i + 1));
                    match decode(extension) {
                        Some(text) => Some(to_lower_text(&text)),
                        None => None,
                    }
                },
                None => None,
            }
        } else {
            None
        }
    }

    /// The directory that holds the file.
    pub fn parent(&self) -> (r: Option<FilePath>)
        ensures
            r.deep_view() == parent_of(self.deep_view()),
    {
        let n: usize = self.parts.len();
        if n == 0 {
            return None;
        }
        if n == 1 && self.parts[0].len() == 1 && self.parts[0][0] == 47 {
            proof {
                assert(self.parts@[0]@ =~= seq![47u8]);
                assert(self.deep_view() =~= seq![seq![47u8]]);
            }
            return None;
        }
        proof {
            if self.deep_view() == seq![seq![47u8]] {
                assert(self.deep_view()[0] == self.parts@[0]@);
                assert(self.parts@[0]@ == seq![47u8]);
                assert(self.parts@[0]@.len() == 1);
            }
        }
        let r = FilePath { parts: copy_parts(&self.parts, 0, n - 1) };
        assert(r.deep_view() =~= self.deep_view().drop_last());
        Some(r)
    }

    /// The rest of the path, where it starts with `root`.
    pub fn below(&self, root: &FilePath) -> (r: Option<FilePath>)
        ensures
            r.deep_view() == below(self.deep_view(), root.deep_view()),
    {
        let n: usize = root.parts.len();
        if self.parts.len() < n {
            return None;
        }
        let mut i: usize = 0;
        while i < n
            invariant
                i <= n <= self.parts@.len(),
                n == root.parts@.len(),
                forall|j: int| 0 <= j < i ==> self.deep_view()[j] == root.deep_view()[j],
            decreases n - i,
        {
            if !same_bytes(&self.parts[i], &root.parts[i]) {
                assert(self.deep_view()[i as int] != root.deep_view()[i as int]);
                assert(self.deep_view().subrange(0, n as int)[i as int] != root.deep_view()[i as int]);
                return None;
            }
            assert(self.deep_view()[i as int] == root.deep_view()[i as int]);
            i = i + 1;
        }
        assert(self.deep_view().subrange(0, n as int) =~= root.deep_view());
        let r = FilePath { parts: copy_parts(&self.parts, n, self.parts.len()) };
        assert(r.deep_view() =~= self.deep_view().skip(n as int));
        Some(r)
    }

    /// Where `path` leads when it starts here.
    pub fn join(&self, path: &FilePath) -> (r: FilePath)
        ensures
            r.deep_view() == joined(self.deep_view(), path.deep_view()),
    {
        if path.parts.len() > 0 && path.parts[0].len() == 1 && path.parts[0][0] == 47 {
            assert(path.parts@[0]@ =~= seq![47u8]);
            return path.duplicate();
        }
        proof {
            if path.parts@.len() > 0 && path.parts@[0]@ == seq![47u8] {
                assert(path.parts@[0]@.len() == 1);
            }
        }
        let mut parts = copy_parts(&self.parts, 0, self.parts.len());
        let mut rest = copy_parts(&path.parts, 0, path.parts.len());
        parts.append(&mut rest);
        let r = FilePath { parts };
        assert(r.deep_view() =~= self.deep_view() + path.deep_view());
        r
    }

    /// The raw bytes of the path.
    pub fn bytes(&self) -> (r: Vec<u8>)
        ensures
            r@ == path_bytes(self.deep_view()),
    {
        let mut out: Vec<u8> = Vec::new();
        let mut i: usize = 0;
        assert(self.deep_view().take(0) =~= Seq::<Seq<u8>>::empty());
        while i < self.parts.len()
            invariant
                i <= self.parts@.len(),
                out@ == path_bytes(self.deep_view().take(i as int)),
            decreases self.parts@.len() - i,
        {
            assert(self.deep_view().take(i + 1).drop_last() =~= self.deep_view().take(i as int));
            if out.len() > 0 && out[out.len() - 1] != 47 {
                out.push(47);
            }
            let mut part = copy_bytes(&self.parts[i]);
            out.append(&mut part);
            i = i + 1;
        }
        assert(self.deep_view().take(i as int) =~= self.deep_view());
        out
    }

    /// The path as it is shown.
    pub fn text(&self) -> (r: String)
        ensures
            r@ == path_text(self.deep_view()),
    {
        decode_lossy(&self.bytes())
    }
}

/// What stands at a place below a directory has that place there, and nothing else stands below it.
pub proof fn law_place_below(root: Seq<Seq<u8>>, place: Seq<Seq<u8>>, other: Seq<Seq<u8>>)
    ensures
        below(root + place, root) == Some(place),
        (forall|rest: Seq<Seq<u8>>| other != #[trigger] (root + rest)) ==> below(other, root) is None,
        place.len() > 0 ==> place[0] != seq![47u8] ==> joined(root, place) == root + place,
        joined(root, seq![seq![47u8]] + place) == seq![seq![47u8]] + place,
{
    assert((root + place).skip(root.len() as int) =~= place);
    if root.is_prefix_of(other) {
        assert(other =~= root + other.skip(root.len() as int));
    }
}

/// An entry of a directory has the directory as its parent, and goes by its own name.
pub proof fn law_entry_of_a_directory(dir: Seq<Seq<u8>>, name: Seq<u8>)
    requires
        name != seq![47u8],
        name != seq![46u8],
        name != seq![46u8, 46u8],
    ensures
        parent_of(dir.push(name)) == Some(dir),
        file_name_of(dir.push(name)) == Some(name),
{
    assert(dir.push(name).drop_last() =~= dir);
    assert(dir.push(name).last() == name);
}

/// The extension of a name is what follows its last full stop, and the stem what stands before that; a
/// name that has none but at its start has no extension.
pub proof fn law_extension(stem: Seq<u8>, extension: Seq<u8>)
    requires
        forall|i: int| 0 <= i < extension.len() ==> #[trigger] extension[i] != 46u8,
    ensures
        stem.len() > 0 ==> extension_of(stem.push(46u8) + extension) == Some(extension),
        stem.len() > 0 ==> stem_of(stem.push(46u8) + extension) == stem,
        extension_of(extension) is None,
        stem_of(extension) == extension,
        extension_of(seq![46u8] + extension) is None,
        stem_of(seq![46u8] + extension) == seq![46u8] + extension,
{
    let name = stem.push(46u8) + extension;
    let n = stem.len() as int;
    assert forall|j: int| n < j < name.len() implies name[j] != 46u8 by {
        assert(name[j] == extension[j - n - 1]);
    }
    assert(last_dot(name, n));
    assert forall|i: int| last_dot(name, i) implies i == n by {}
    if n > 0 {
        assert(name.skip(n + 1) =~= extension);
        assert(name.take(n) =~= stem);
    }
    let hidden = seq![46u8] + extension;
    assert forall|i: int| i > 0 implies !last_dot(hidden, i) by {
        if 0 < i < hidden.len() {
            assert(hidden[i] == extension[i - 1]);
        }
    }
}

/// The bytes of a path are its parts with a `/` between them, and none after the root.
pub proof fn law_path_bytes(path: Seq<Seq<u8>>, part: Seq<u8>)
    ensures
        path_bytes(Seq::<Seq<u8>>::empty()) == Seq::<u8>::empty(),
        path_bytes(seq![part]) == part,
        path_bytes(seq![seq![47u8], part]) == seq![47u8] + part,
        path.len() > 0 && path.last().len() > 0 && path.last().last() != 47u8 ==> path_bytes(
            path.push(part),
        ) == path_bytes(path) + seq![47u8] + part,
{
    reveal_with_fuel(path_bytes, 3);
    assert(path.push(part).drop_last() =~= path);
    assert(seq![part].drop_last() =~= Seq::<Seq<u8>>::empty());
    assert(Seq::<u8>::empty() + part =~= part);
    let two = seq![seq![47u8], part];
    assert(two.drop_last() =~= seq![seq![47u8]]);
    assert(seq![seq![47u8]].drop_last() =~= Seq::<Seq<u8>>::empty());
    assert(Seq::<u8>::empty() + seq![47u8] =~= seq![47u8]);
    assert(path_bytes(seq![seq![47u8]]) == seq![47u8]);
    if path.len() > 0 && path.last().len() > 0 && path.last().last() != 47u8 {
        let head = path_bytes(path.drop_last());
        assert(path_bytes(path).last() == path.last().last());
        assert(path_bytes(path).push(47u8) + part =~= path_bytes(path) + seq![47u8] + part);
    }
}

/// Paths are ordered part by part, and parts byte by byte: the first difference decides, and what ends
/// first comes first.
pub proof fn law_path_order(
    common: Seq<Seq<u8>>,
    prefix: Seq<u8>,
    a: Seq<u8>,
    b: Seq<u8>,
    s: Seq<Seq<u8>>,
    t: Seq<Seq<u8>>,
)
    requires
        b.len() > 0,
        a.len() > 0 ==> a[0] < b[0],
    ensures
        bytes_less(prefix + a, prefix + b),
        path_less(common + (seq![prefix + a] + s), common + (seq![prefix + b] + t)),
        t.len() > 0 ==> path_less(common, common + t),
    decreases common.len() + prefix.len(),
{
    if prefix.len() > 0 {
        assert((prefix + a).drop_first() =~= prefix.drop_first() + a);
        assert((prefix + b).drop_first() =~= prefix.drop_first() + b);
        law_path_order(common, prefix.drop_first(), a, b, s, t);
    } else {
        assert(prefix + a =~= a);
        assert(prefix + b =~= b);
    }
    assert(bytes_less(prefix + a, prefix + b));
    let x = common + (seq![prefix + a] + s);
    let y = common + (seq![prefix + b] + t);
    if common.len() > 0 {
        assert(x.drop_first() =~= common.drop_first() + (seq![prefix + a] + s));
        assert(y.drop_first() =~= common.drop_first() + (seq![prefix + b] + t));
        assert((common + t).drop_first() =~= common.drop_first() + t);
        law_path_order(common.drop_first(), prefix, a, b, s, t);
    } else {
        lemma_bytes_less_irreflexive(prefix + a);
        assert(x[0] == prefix + a && y[0] == prefix + b);
        assert(common + t =~= t);
    }
}

/// The extension of a file counts in lower case, where it is text.
pub proof fn law_extension_in_lower_case(
    dir: Seq<Seq<u8>>,
    stem: Seq<u8>,
    extension: Seq<u8>,
    text: Seq<char>,
)
    requires
        stem.len() > 0,
        extension.len() > 0,
        forall|i: int| 0 <= i < extension.len() ==> #[trigger] extension[i] != 46u8,
    ensures
        text_of(extension) == Some(text) ==> extension_text(dir.push(stem.push(46u8) + extension))
            == Some(lower_text(text)),
        text_of(extension) is None ==> extension_text(dir.push(stem.push(46u8) + extension)) is None,
{
    let name = stem.push(46u8) + extension;
    law_extension(stem, extension);
    assert(name.last() == extension.last());
    assert(name.len() >= 3);
    law_entry_of_a_directory(dir, name);
}

} // verus!
