//! Paths as sequences of components, and the name of a file's temporary twin.
use vstd::prelude::*;
use vstd::utf8::valid_utf8;

verus! {

/// A path: its components, each as the bytes the operating system knows it by, the first
/// `anchor` of which are its root (such as `/`).
#[derive(Debug)]
pub struct FilePath {
    pub anchor: usize,
    pub components: Vec<Vec<u8>>,
}

/// The components of a path.
pub open spec fn component_views(components: Seq<Vec<u8>>) -> Seq<Seq<u8>> {
    components.map_values(|component: Vec<u8>| component@)
}

impl View for FilePath {
    type V = Seq<Seq<u8>>;

    open spec fn view(&self) -> Seq<Seq<u8>> {
        component_views(self.components@)
    }
}

/// `..`, which leads to a parent.
pub open spec fn parent_dir() -> Seq<u8> {
    seq![46u8, 46u8]
}

/// `.`, which leads nowhere.
pub open spec fn current_dir() -> Seq<u8> {
    seq![46u8]
}

/// The last component of a path whose root is its first `anchor` components, if that component
/// names a file.
pub open spec fn file_name_of(path: Seq<Seq<u8>>, anchor: int) -> Option<Seq<u8>> {
    if path.len() <= anchor || path.len() == 0 || path.last() == parent_dir() || path.last()
        == current_dir() {
        None
    } else {
        Some(path.last())
    }
}

/// The path without its last component, unless that component is part of its root.
pub open spec fn parent_of(path: Seq<Seq<u8>>, anchor: int) -> Option<Seq<Seq<u8>>> {
    if path.len() <= anchor || path.len() == 0 {
        None
    } else {
        Some(path.drop_last())
    }
}

/// Whether the last dot of `name` is at `dot`, and parts a stem from an extension: a dot that
/// begins a name does not.
pub open spec fn is_extension_dot(name: Seq<u8>, dot: int) -> bool {
    &&& 0 < dot < name.len()
    &&& name[dot] == 46
    &&& forall|i: int| dot < i < name.len() ==> name[i] != 46
}

/// `_freqfs`
pub open spec fn tmp_extension() -> Seq<u8> {
    seq![95u8, 102u8, 114u8, 101u8, 113u8, 102u8, 115u8]
}

/// `tmp` is the name of the temporary twin of the file called `name`: `a.txt` has the twin
/// `a.txt__freqfs`, and `a` the twin `a._freqfs`. An extension that is not text is replaced.
pub open spec fn is_tmp_name(name: Seq<u8>, tmp: Seq<u8>) -> bool {
    if exists|dot: int| is_extension_dot(name, dot) {
        exists|dot: int| #[trigger]
            is_extension_dot(name, dot) && tmp == (if valid_utf8(name.skip(dot + 1)) {
                name.push(95u8) + tmp_extension()
            } else {
                name.take(dot).push(46u8) + tmp_extension()
            })
    } else {
        tmp == name.push(46u8) + tmp_extension()
    }
}

/// `tmp` is the temporary twin of the file at `path`: it lies in the same directory. A path
/// which names no file is its own twin.
pub open spec fn is_tmp_path(path: Seq<Seq<u8>>, anchor: int, tmp: Seq<Seq<u8>>) -> bool {
    match file_name_of(path, anchor) {
        None => tmp == path,
        Some(name) => {
            &&& tmp.len() == path.len()
            &&& tmp.drop_last() == path.drop_last()
            &&& is_tmp_name(name, tmp.last())
        },
    }
}

proof fn lemma_tmp_extension_is_text()
    ensures
        valid_utf8(tmp_extension()),
{
    reveal_with_fuel(valid_utf8, 8);
}

/// A file is never its own temporary twin, so that writing the twin leaves the file alone.
pub proof fn lemma_tmp_path_is_another_file(path: Seq<Seq<u8>>, anchor: int, tmp: Seq<Seq<u8>>)
    requires
        file_name_of(path, anchor) is Some,
        is_tmp_path(path, anchor, tmp),
    ensures
        tmp != path,
{
    let name = path.last();
    if tmp.last() == name && exists|dot: int| is_extension_dot(name, dot) {
        let dot = choose|dot: int| #[trigger]
            is_extension_dot(name, dot) && tmp.last() == (if valid_utf8(name.skip(dot + 1)) {
                name.push(95u8) + tmp_extension()
            } else {
                name.take(dot).push(46u8) + tmp_extension()
            });
        assert(name.skip(dot + 1) =~= tmp_extension());
        lemma_tmp_extension_is_text();
    }
}

/// Whether the extension of `name`, if it has one, is text.
pub open spec fn has_text_extension(name: Seq<u8>) -> bool {
    forall|dot: int| #[trigger] is_extension_dot(name, dot) ==> valid_utf8(name.skip(dot + 1))
}

/// Two files of one directory do not share a temporary twin, as long as their extensions are
/// text.
pub proof fn lemma_tmp_names_are_distinct(
    left: Seq<u8>,
    left_tmp: Seq<u8>,
    right: Seq<u8>,
    right_tmp: Seq<u8>,
)
    requires
        has_text_extension(left),
        has_text_extension(right),
        is_tmp_name(left, left_tmp),
        is_tmp_name(right, right_tmp),
        left != right,
    ensures
        left_tmp != right_tmp,
{
    if left_tmp == right_tmp {
        let mark = left_tmp.len() - 8;
        assert(left_tmp.take(mark) =~= left);
        assert(right_tmp.take(mark) =~= right);
    }
}

/// Whether `bytes` are the UTF-8 encoding of a text.
///
/// Calls [`std::str::from_utf8`], which is taken to succeed exactly on valid UTF-8.
#[verifier::external_body]
fn is_text(bytes: &[u8]) -> (valid: bool)
    ensures
        valid == valid_utf8(bytes@),
{
    std::str::from_utf8(bytes).is_ok()
}

fn copy_bytes(bytes: &Vec<u8>, len: usize) -> (copy: Vec<u8>)
    requires
        len <= bytes@.len(),
    ensures
        copy@ == bytes@.take(len as int),
{
    let mut copy: Vec<u8> = Vec::new();
    let mut i: usize = 0;
    while i < len
        invariant
            i <= len <= bytes@.len(),
            copy@ == bytes@.take(i as int),
        decreases len - i,
    {
        copy.push(bytes[i]);
        i += 1;
        assert(copy@ =~= bytes@.take(i as int));
    }
    copy
}

fn same_bytes(left: &Vec<u8>, right: &Vec<u8>) -> (same: bool)
    ensures
        same == (left@ == right@),
{
    if left.len() != right.len() {
        return false;
    }
    let mut i: usize = 0;
    while i < left.len()
        invariant
            i <= left@.len(),
            left@.len() == right@.len(),
            forall|j: int| 0 <= j < i ==> left@[j] == right@[j],
        decreases left@.len() - i,
    {
        if left[i] != right[i] {
            return false;
        }
        i += 1;
    }
    assert(left@ =~= right@);
    true
}

/// The place of the dot before the extension of `name`, if it has an extension.
fn extension_dot(name: &Vec<u8>) -> (dot: Option<usize>)
    ensures
        match dot {
            Some(dot) => is_extension_dot(name@, dot as int),
            None => forall|i: int| !is_extension_dot(name@, i),
        },
{
    let mut i: usize = name.len();
    while i > 0
        invariant
            i <= name@.len(),
            forall|j: int| i <= j < name@.len() ==> name@[j] != 46,
        decreases i,
    {
        i -= 1;
        if name[i] == 46 {
            return if i > 0 {
                Some(i)
            } else {
                None
            };
        }
    }
    None
}

fn push_tmp_extension(name: &mut Vec<u8>)
    ensures
        final(name)@ == old(name)@ + tmp_extension(),
{
    name.push(95);
    name.push(102);
    name.push(114);
    name.push(101);
    name.push(113);
    name.push(102);
    name.push(115);
    assert(name@ =~= old(name)@ + tmp_extension());
}

/// The name of the temporary twin of the file called `name`.
pub fn tmp_name(name: &Vec<u8>) -> (tmp: Vec<u8>)
    ensures
        is_tmp_name(name@, tmp@),
{
    let len = name.len();
    match extension_dot(name) {
        Some(dot) => {
            let mut extension: Vec<u8> = Vec::new();
            let mut i: usize = dot + 1;
            while i < len
                invariant
                    dot < i <= len == name@.len(),
                    extension@ == name@.subrange(dot + 1, i as int),
                decreases name@.len() - i,
            {
                extension.push(name[i]);
                i += 1;
                assert(extension@ =~= name@.subrange(dot + 1, i as int));
            }
            assert(extension@ =~= name@.skip(dot + 1));
            let mut tmp: Vec<u8> = Vec::new();
            if is_text(extension.as_slice()) {
                tmp = copy_bytes(name, len);
                tmp.push(95);
                assert(tmp@ =~= name@.push(95u8));
            } else {
                tmp = copy_bytes(name, dot);
                tmp.push(46);
            }
            push_tmp_extension(&mut tmp);
            tmp
        },
        None => {
            let mut tmp = copy_bytes(name, len);
            tmp.push(46);
            assert(tmp@ =~= name@.push(46u8));
            push_tmp_extension(&mut tmp);
            tmp
        },
    }
}

fn copy_components(components: &Vec<Vec<u8>>, len: usize) -> (copy: Vec<Vec<u8>>)
    requires
        len <= components@.len(),
    ensures
        component_views(copy@) == component_views(components@).take(len as int),
{
    let mut copy: Vec<Vec<u8>> = Vec::new();
    let mut i: usize = 0;
    while i < len
        invariant
            i <= len <= components@.len(),
            copy@.len() == i,
            forall|j: int| 0 <= j < i ==> (#[trigger] copy@[j])@ == components@[j]@,
        decreases len - i,
    {
        let component = copy_bytes(&components[i], components[i].len());
        assert(component@ =~= components@[i as int]@);
        copy.push(component);
        i += 1;
    }
    assert(component_views(copy@) =~= component_views(components@).take(len as int));
    copy
}

impl FilePath {
    /// The path of the given `components`, the first `anchor` of which are its root.
    pub fn new(anchor: usize, components: Vec<Vec<u8>>) -> (path: Self)
        ensures
            path.anchor == anchor,
            path@ == component_views(components@),
    {
        FilePath { anchor, components }
    }

    /// A copy of this path.
    pub fn duplicate(&self) -> (copy: Self)
        ensures
            copy.anchor == self.anchor,
            copy@ == self@,
    {
        let components = copy_components(&self.components, self.components.len());
        assert(self@.take(self@.len() as int) =~= self@);
        FilePath { anchor: self.anchor, components }
    }

    /// Whether this path is `base`, or lies under it.
    pub fn starts_with(&self, base: &FilePath) -> (starts: bool)
        ensures
            starts == base@.is_prefix_of(self@),
    {
        if base.components.len() > self.components.len() {
            return false;
        }
        let mut i: usize = 0;
        while i < base.components.len()
            invariant
                i <= base.components@.len() <= self.components@.len(),
                forall|j: int|
                    0 <= j < i ==> (#[trigger] base.components@[j])@ == self.components@[j]@,
            decreases base.components@.len() - i,
        {
            if !same_bytes(&base.components[i], &self.components[i]) {
                assert(base@[i as int] != self@.subrange(0, base@.len() as int)[i as int]);
                return false;
            }
            i += 1;
        }
        assert(base@ =~= self@.subrange(0, base@.len() as int));
        true
    }

    /// The path without its last component, if there is one which is not part of its root.
    pub fn parent(&self) -> (parent: Option<FilePath>)
        ensures
            match parent {
                Some(parent) => {
                    &&& parent_of(self@, self.anchor as int) == Some(parent@)
                    &&& parent.anchor == self.anchor
                },
                None => parent_of(self@, self.anchor as int) is None,
            },
    {
        let len = self.components.len();
        if len == 0 || len <= self.anchor {
            None
        } else {
            let components = copy_components(&self.components, len - 1);
            assert(self@.take(len - 1) =~= self@.drop_last());
            Some(FilePath { anchor: self.anchor, components })
        }
    }

    fn names_file(&self) -> (names: bool)
        ensures
            names == (file_name_of(self@, self.anchor as int) is Some),
    {
        let len = self.components.len();
        if len == 0 || len <= self.anchor {
            return false;
        }
        let last = &self.components[len - 1];
        assert(self@.last() == last@);
        if last.len() == 1 && last[0] == 46 {
            assert(last@ =~= current_dir());
            false
        } else if last.len() == 2 && last[0] == 46 && last[1] == 46 {
            assert(last@ =~= parent_dir());
            false
        } else {
            true
        }
    }

    /// The path of the temporary twin which is written in place of the file at this path.
    pub fn tmp_path(&self) -> (tmp: FilePath)
        ensures
            tmp.anchor == self.anchor,
            is_tmp_path(self@, self.anchor as int, tmp@),
    {
        if !self.names_file() {
            return self.duplicate();
        }
        let len = self.components.len();
        let mut components = copy_components(&self.components, len - 1);
        let ghost dir = component_views(components@);
        let name = tmp_name(&self.components[len - 1]);
        components.push(name);
        let tmp = FilePath { anchor: self.anchor, components };
        proof {
            assert(tmp@ =~= dir.push(name@));
            assert(tmp@.drop_last() =~= self@.drop_last());
        }
        tmp
    }
}

} // verus!
