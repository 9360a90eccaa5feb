//! File names that clients send, and the paths they stand for inside a
//! bucket's directory.

use camino::{Utf8Component, Utf8Path};
use vstd::prelude::*;

use crate::errors::FilePathError;
use crate::text;

verus! {

/// One component of a path.
#[derive(Debug)]
pub enum Component<S = String> {
    Prefix,
    RootDir,
    CurDir,
    ParentDir,
    Normal(S),
}

impl View for Component<String> {
    type V = Component<Seq<char>>;

    open spec fn view(&self) -> Component<Seq<char>> {
        match self {
            Component::Prefix => Component::Prefix,
            Component::RootDir => Component::RootDir,
            Component::CurDir => Component::CurDir,
            Component::ParentDir => Component::ParentDir,
            Component::Normal(name) => Component::Normal(name@),
        }
    }
}

/// What stands between the slashes of `path`, empty pieces included.
pub open spec fn pieces(path: Seq<char>) -> Seq<Seq<char>>
    decreases path.len(),
{
    if path.len() == 0 {
        seq![path]
    } else {
        let before = pieces(path.drop_last());
        if path.last() == '/' {
            before.push(Seq::empty())
        } else {
            before.drop_last().push(before.last().push(path.last()))
        }
    }
}

/// Pieces that count as components wherever they stand: not empty and not `.`.
pub open spec fn counts(piece: Seq<char>) -> bool {
    piece.len() > 0 && piece != seq!['.']
}

/// The component that a piece stands for.
pub open spec fn component_of(piece: Seq<char>) -> Component<Seq<char>> {
    if piece == seq!['.', '.'] {
        Component::ParentDir
    } else {
        Component::Normal(piece)
    }
}

/// The components of a Unix path: repeated and trailing slashes are ignored,
/// `.` is left out except at the very beginning, a leading slash is the root
/// directory, and nothing else is normalized.
pub open spec fn components(path: Seq<char>) -> Seq<Component<Seq<char>>> {
    let named = pieces(path).filter(|piece: Seq<char>| counts(piece)).map_values(
        |piece: Seq<char>| component_of(piece),
    );
    if path.len() > 0 && path[0] == '/' {
        seq![Component::RootDir] + named
    } else if pieces(path)[0] == seq!['.'] {
        seq![Component::CurDir] + named
    } else {
        named
    }
}

/// Splits a path with camino's `Utf8Path::components`, whose documentation
/// gives the normalization that `components` states for Unix paths.
#[verifier::external_body]
fn utf8_components(path: &str) -> (out: Vec<Component>)
    ensures
        out@.map_values(|c: Component| c@) == components(path@),
{
    Utf8Path::new(path).components().map(|part| match part {
        Utf8Component::Prefix(_) => Component::Prefix,
        Utf8Component::RootDir => Component::RootDir,
        Utf8Component::CurDir => Component::CurDir,
        Utf8Component::ParentDir => Component::ParentDir,
        Utf8Component::Normal(name) => Component::Normal(name.to_owned()),
    }).collect()
}

/// Why the first unacceptable component is not acceptable, if there is one.
pub open spec fn component_error(parts: Seq<Component<Seq<char>>>) -> Option<FilePathError>
    decreases parts.len(),
{
    if parts.len() == 0 {
        None
    } else {
        match parts[0] {
            Component::Normal(_) => component_error(parts.drop_first()),
            Component::RootDir => Some(FilePathError::Absolute),
            _ => Some(FilePathError::DotDot),
        }
    }
}

/// Why `name` is not an acceptable file name, if it is not.
pub open spec fn path_error(name: Seq<char>) -> Option<FilePathError> {
    if name.contains('\0') {
        Some(FilePathError::InvalidChar)
    } else {
        component_error(components(name))
    }
}

/// The names of the components of `path` when all of them are normal.
pub open spec fn path_names(path: Seq<char>) -> Seq<Seq<char>> {
    pieces(path).filter(|piece: Seq<char>| counts(piece))
}

/// A name that can stand in a directory: not empty, neither `.` nor `..`, with
/// no slash and no NUL in it.
pub open spec fn is_plain_name(name: Seq<char>) -> bool {
    &&& name.len() > 0
    &&& name != seq!['.']
    &&& name != seq!['.', '.']
    &&& !name.contains('/')
    &&& !name.contains('\0')
}

/// Names written one after another with slashes between them.
pub open spec fn slash_join(names: Seq<Seq<char>>) -> Seq<char>
    decreases names.len(),
{
    if names.len() == 0 {
        Seq::empty()
    } else if names.len() == 1 {
        names[0]
    } else {
        slash_join(names.drop_last()).push('/') + names.last()
    }
}

/// A path inside a bucket's directory: a list of plain names, which never
/// leads out of the directory.
#[derive(Debug)]
pub struct FilePath {
    names: Vec<String>,
}

impl View for FilePath {
    type V = Seq<Seq<char>>;

    closed spec fn view(&self) -> Seq<Seq<char>> {
        self.names@.map_values(|name: String| name@)
    }
}

impl FilePath {
    /// Every name in the path is a plain one.
    pub open spec fn wf(&self) -> bool {
        forall|i: int| 0 <= i < self@.len() ==> is_plain_name(#[trigger] self@[i])
    }

    /// How many names the path has.
    pub fn len(&self) -> (n: usize)
        ensures
            n == self@.len(),
    {
        self.names.len()
    }

    /// The path written out.
    pub fn to_text(&self) -> (out: String)
        ensures
            out@ == slash_join(self@),
    {
        proof {
            assert(self@.take(self@.len() as int) =~= self@);
        }
        self.prefix_text(self.names.len())
    }

    /// The first `count` names of the path, written out.
    pub fn prefix_text(&self, count: usize) -> (out: String)
        requires
            count <= self@.len(),
        ensures
            out@ == slash_join(self@.take(count as int)),
    {
        let mut out = String::new();
        let mut i: usize = 0;
        while i < count
            invariant
                i <= count <= self@.len(),
                self@.len() == self.names@.len(),
                out@ == slash_join(self@.take(i as int)),
            decreases count - i,
        {
            proof {
                assert(self@.take(i + 1).drop_last() =~= self@.take(i as int));
                assert(self@.take(i + 1).last() == self.names@[i as int]@);
                reveal_strlit("/");
                assert(out@.push('/') =~= out@ + "/"@);
                assert(Seq::<char>::empty() + self.names@[i as int]@ =~= self.names@[i as int]@);
            }
            if i > 0 {
                out.append("/");
            }
            out.append(&self.names[i]);
            i += 1;
        }
        out
    }

    /// The path without its last name; the empty path has no parent.
    pub fn parent(&self) -> (out: Option<FilePath>)
        ensures
            out is None <==> self@.len() == 0,
            out matches Some(p) ==> p@ == self@.drop_last() && (self.wf() ==> p.wf()),
    {
        if self.names.len() == 0 {
            return None;
        }
        let mut names: Vec<String> = Vec::new();
        let mut i: usize = 0;
        while i < self.names.len() - 1
            invariant
                i == names@.len(),
                0 < self.names@.len(),
                i <= self.names@.len() - 1,
                forall|j: int| 0 <= j < i ==> (#[trigger] names@[j])@ == self.names@[j]@,
            decreases self.names@.len() - i,
        {
            names.push(self.names[i].clone());
            i += 1;
        }
        let out = FilePath { names };
        proof {
            assert(out@ =~= self@.drop_last());
            assert forall|j: int| self.wf() && 0 <= j < out@.len() implies is_plain_name(
                #[trigger] out@[j],
            ) by {
                assert(out@[j] == self@[j]);
            }
        }
        Some(out)
    }
}

/// Whether `s` holds the character `c`.
pub(crate) fn has_char(s: &str, c: char) -> (found: bool)
    ensures
        found == s@.contains(c),
{
    for x in it: s.chars()
        invariant
            it.seq() == s@,
            forall|j: int| 0 <= j < it.index() ==> s@[j] != c,
    {
        if x == c {
            return true;
        }
    }
    false
}

impl FilePath {
    /// "Sanitizes" a file path, mostly just by removing blatantly illegal
    /// contents from it. Other than that it's Unix, whatever, it can deal with
    /// pretty nonsense file names that are valid UTF-8.
    pub fn make_acceptable_filepath(name: &str) -> (out: Result<FilePath, FilePathError>)
        ensures
            match path_error(name@) {
                Some(why) => out matches Err(e) && e == why,
                None => out matches Ok(path) && path@ == path_names(name@) && path.wf(),
            },
    {
        if has_char(name, '\0') {
            return Err(FilePathError::InvalidChar);
        }
        let parts = utf8_components(name);
        let ghost all = components(name@);
        let mut names: Vec<String> = Vec::new();
        let mut i: usize = 0;
        proof {
            assert(all.skip(0) =~= all);
        }
        while i < parts.len()
            invariant
                i <= parts@.len(),
                all == parts@.map_values(|c: Component| c@),
                all == components(name@),
                !name@.contains('\0'),
                names@.len() == i,
                forall|j: int|
                    0 <= j < i ==> all[j] == Component::Normal((#[trigger] names@[j])@),
                component_error(all) == component_error(all.skip(i as int)),
            decreases parts@.len() - i,
        {
            proof {
                assert(all.skip(i as int)[0] == parts@[i as int]@);
                assert(all.skip(i as int).drop_first() =~= all.skip(i + 1));
            }
            match &parts[i] {
                Component::Normal(part) => {
                    names.push(part.clone());
                },
                Component::RootDir => {
                    return Err(FilePathError::Absolute);
                },
                _ => {
                    return Err(FilePathError::DotDot);
                },
            }
            i += 1;
        }
        let out = FilePath { names };
        proof {
            lemma_all_normal(name@);
            assert(out@ =~= path_names(name@));
        }
        Ok(out)
    }
}

/// There is always a piece, and no piece holds a slash or anything that the
/// path does not hold.
proof fn lemma_pieces_shape(path: Seq<char>)
    ensures
        pieces(path).len() > 0,
        forall|i: int| 0 <= i < pieces(path).len() ==> !(#[trigger] pieces(path)[i]).contains('/'),
        forall|i: int, c: char|
            0 <= i < pieces(path).len() && #[trigger] pieces(path)[i].contains(c)
                ==> path.contains(c),
    decreases path.len(),
{
    if path.len() > 0 {
        let init = path.drop_last();
        lemma_pieces_shape(init);
        let before = pieces(init);
        let all = pieces(path);
        assert forall|i: int, c: char|
            0 <= i < all.len() && #[trigger] all[i].contains(c) implies path.contains(c) && c
            != '/' by {
            let k = choose|k: int| 0 <= k < all[i].len() && all[i][k] == c;
            assert(path.last() == path[path.len() - 1]);
            if i < before.len() - 1 || path.last() == '/' {
                assert(all[i] == before[i] || all[i].len() == 0);
                assert(before[i].contains(c));
            } else if k < before.last().len() {
                assert(before[i][k] == c);
                assert(before[i].contains(c));
            }
            if init.contains(c) {
                let m = choose|m: int| 0 <= m < init.len() && init[m] == c;
                assert(path[m] == c);
            }
        }
        assert forall|i: int| 0 <= i < all.len() implies !(#[trigger] all[i]).contains('/') by {
            if all[i].contains('/') {
                assert(false);
            }
        }
    }
}

/// A list of components has no error exactly when all of them are normal.
proof fn lemma_component_error(parts: Seq<Component<Seq<char>>>)
    ensures
        component_error(parts) is None <==> forall|i: int|
            0 <= i < parts.len() ==> (#[trigger] parts[i]) is Normal,
    decreases parts.len(),
{
    if parts.len() > 0 {
        let rest = parts.drop_first();
        lemma_component_error(rest);
        if component_error(parts) is None {
            assert forall|i: int| 0 <= i < parts.len() implies (#[trigger] parts[i]) is Normal by {
                if i > 0 {
                    assert(rest[i - 1] is Normal);
                }
            }
        } else if parts[0] is Normal {
            let k = choose|k: int| 0 <= k < rest.len() && !((#[trigger] rest[k]) is Normal);
            assert(!(parts[k + 1] is Normal));
        }
    }
}

/// The components of an acceptable path are its names, and they are plain.
proof fn lemma_all_normal(path: Seq<char>)
    requires
        path_error(path) is None,
    ensures
        components(path).len() == path_names(path).len(),
        forall|i: int|
            0 <= i < path_names(path).len() ==> #[trigger] components(path)[i]
                == Component::Normal(path_names(path)[i]),
        forall|i: int|
            0 <= i < path_names(path).len() ==> is_plain_name(#[trigger] path_names(path)[i]),
{
    let all = components(path);
    let names = path_names(path);
    lemma_component_error(all);
    lemma_pieces_shape(path);
    if all.len() > 0 {
        assert(all[0] is Normal);
    }
    assert(all =~= names.map_values(|piece: Seq<char>| component_of(piece)));
    assert forall|i: int| 0 <= i < names.len() implies is_plain_name(#[trigger] names[i])
        && all[i] == Component::Normal(names[i]) by {
        assert(all[i] is Normal);
        assert(all[i] == component_of(names[i]));
        pieces(path).lemma_filter_pred(|piece: Seq<char>| counts(piece), i);
        pieces(path).lemma_filter_contains_rev(|piece: Seq<char>| counts(piece), names[i]);
        assert(pieces(path).contains(names[i]));
        let k = choose|k: int| 0 <= k < pieces(path).len() && pieces(path)[k] == names[i];
        assert(!pieces(path)[k].contains('/'));
        if names[i].contains('\0') {
            assert(pieces(path)[k].contains('\0'));
        }
    }
}

/// Text without a slash behind a slash is a piece of its own.
proof fn lemma_pieces_after_slash(before: Seq<char>, name: Seq<char>)
    requires
        !name.contains('/'),
    ensures
        pieces(before.push('/') + name) == pieces(before).push(name),
    decreases name.len(),
{
    let whole = before.push('/') + name;
    lemma_pieces_shape(before);
    if name.len() == 0 {
        assert(whole =~= before.push('/'));
        assert(whole.drop_last() =~= before);
        assert(name =~= Seq::<char>::empty());
    } else {
        let shorter = name.drop_last();
        assert(!shorter.contains('/')) by {
            if shorter.contains('/') {
                let k = choose|k: int| 0 <= k < shorter.len() && shorter[k] == '/';
                assert(name[k] == '/');
            }
        }
        lemma_pieces_after_slash(before, shorter);
        assert(whole.drop_last() =~= before.push('/') + shorter);
        assert(whole.last() == name[name.len() - 1]);
        assert(shorter.push(name.last()) =~= name);
        let so_far = pieces(before).push(shorter);
        assert(so_far.drop_last().push(name) =~= pieces(before).push(name));
    }
}

/// Text without a slash is a single piece.
proof fn lemma_pieces_of_name(name: Seq<char>)
    requires
        !name.contains('/'),
    ensures
        pieces(name) == seq![name],
    decreases name.len(),
{
    if name.len() > 0 {
        let shorter = name.drop_last();
        assert(!shorter.contains('/')) by {
            if shorter.contains('/') {
                let k = choose|k: int| 0 <= k < shorter.len() && shorter[k] == '/';
                assert(name[k] == '/');
            }
        }
        lemma_pieces_of_name(shorter);
        assert(name.last() == name[name.len() - 1]);
        assert(shorter.push(name.last()) =~= name);
        assert(seq![shorter].drop_last().push(name) =~= seq![name]);
    }
}

/// Names without slashes are the pieces of their join.
proof fn lemma_pieces_of_join(names: Seq<Seq<char>>)
    requires
        names.len() > 0,
        forall|i: int| 0 <= i < names.len() ==> !(#[trigger] names[i]).contains('/'),
    ensures
        pieces(slash_join(names)) == names,
    decreases names.len(),
{
    assert(!names[names.len() - 1].contains('/'));
    if names.len() == 1 {
        lemma_pieces_of_name(names[0]);
        assert(seq![names[0]] =~= names);
    } else {
        let shorter = names.drop_last();
        assert forall|i: int| 0 <= i < shorter.len() implies !(#[trigger] shorter[i]).contains(
            '/',
        ) by {
            assert(shorter[i] == names[i]);
        }
        lemma_pieces_of_join(shorter);
        lemma_pieces_after_slash(slash_join(shorter), names.last());
        assert(shorter.push(names.last()) =~= names);
    }
}

/// Filtering a list whose members all count leaves it as it is.
proof fn lemma_filter_keeps_all(names: Seq<Seq<char>>)
    requires
        forall|i: int| 0 <= i < names.len() ==> counts(#[trigger] names[i]),
    ensures
        names.filter(|piece: Seq<char>| counts(piece)) == names,
    decreases names.len(),
{
    reveal(Seq::filter);
    if names.len() > 0 {
        let shorter = names.drop_last();
        assert forall|i: int| 0 <= i < shorter.len() implies counts(#[trigger] shorter[i]) by {
            assert(shorter[i] == names[i]);
        }
        lemma_filter_keeps_all(shorter);
        assert(counts(names[names.len() - 1]));
        assert(shorter.push(names.last()) =~= names);
    }
}

/// A join of plain names holds only slashes and what the names hold.
proof fn lemma_join_without_nul(names: Seq<Seq<char>>)
    requires
        forall|i: int| 0 <= i < names.len() ==> is_plain_name(#[trigger] names[i]),
    ensures
        !slash_join(names).contains('\0'),
        names.len() > 0 ==> slash_join(names).len() > 0 && slash_join(names)[0] == names[0][0],
    decreases names.len(),
{
    let text = slash_join(names);
    if names.len() > 0 {
        assert(is_plain_name(names[0]));
        assert(is_plain_name(names[names.len() - 1]));
        if names.len() > 1 {
            let shorter = names.drop_last();
            assert forall|i: int| 0 <= i < shorter.len() implies is_plain_name(
                #[trigger] shorter[i],
            ) by {
                assert(shorter[i] == names[i]);
            }
            lemma_join_without_nul(shorter);
            assert(shorter[0] == names[0]);
            let head = slash_join(shorter);
            if text.contains('\0') {
                let k = choose|k: int| 0 <= k < text.len() && text[k] == '\0';
                if k < head.len() {
                    assert(head[k] == '\0');
                } else if k > head.len() {
                    assert(names.last()[k - head.len() - 1] == '\0');
                }
            }
        }
    }
}

/// A list of plain names is what its own text is read as: the text is an
/// acceptable name, and its components are those names and nothing else.
pub proof fn law_written_path_reads_back(names: Seq<Seq<char>>)
    requires
        forall|i: int| 0 <= i < names.len() ==> is_plain_name(#[trigger] names[i]),
    ensures
        path_error(slash_join(names)) is None,
        path_names(slash_join(names)) == names,
        components(slash_join(names)) == names.map_values(
            |name: Seq<char>| Component::Normal(name),
        ),
{
    let text = slash_join(names);
    lemma_join_without_nul(names);
    if names.len() == 0 {
        lemma_pieces_of_name(text);
        assert(text =~= Seq::<char>::empty());
        let none = seq![text];
        reveal(Seq::filter);
        assert(none.drop_last() =~= Seq::<Seq<char>>::empty());
        assert(none.drop_last().filter(|piece: Seq<char>| counts(piece)) =~= Seq::<
            Seq<char>,
        >::empty());
        assert(path_names(text) =~= names);
    } else {
        assert forall|i: int| 0 <= i < names.len() implies !(#[trigger] names[i]).contains('/')
            && counts(names[i]) by {
            assert(is_plain_name(names[i]));
        }
        lemma_pieces_of_join(names);
        lemma_filter_keeps_all(names);
        assert(is_plain_name(names[0]));
        if text[0] == '/' {
            assert(names[0].contains('/'));
        }
    }
    let all = components(text);
    assert(all =~= names.map_values(|name: Seq<char>| Component::Normal(name))) by {
        assert forall|i: int| 0 <= i < names.len() implies component_of(#[trigger] names[i])
            == Component::Normal(names[i]) by {
            assert(is_plain_name(names[i]));
        }
    }
    lemma_component_error(all);
}

/// An acceptable name never leads out of the bucket's directory: the path made
/// of it is relative and has neither `.` nor `..` in it, so making it
/// acceptable once more changes nothing.
pub proof fn law_acceptable_path_stays_inside(name: Seq<char>)
    requires
        path_error(name) is None,
    ensures
        forall|i: int|
            0 <= i < path_names(name).len() ==> is_plain_name(#[trigger] path_names(name)[i]),
        path_error(slash_join(path_names(name))) is None,
        path_names(slash_join(path_names(name))) == path_names(name),
        forall|i: int|
            0 <= i < components(slash_join(path_names(name))).len() ==> (
            #[trigger] components(slash_join(path_names(name)))[i]) is Normal,
{
    lemma_all_normal(name);
    law_written_path_reads_back(path_names(name));
}

/// A list without the root directory has an error exactly if something in it
/// is not a name, and then it is about dots.
proof fn lemma_dots(parts: Seq<Component<Seq<char>>>)
    requires
        forall|i: int| 0 <= i < parts.len() ==> !((#[trigger] parts[i]) is RootDir),
    ensures
        component_error(parts) is None || component_error(parts) == Some(FilePathError::DotDot),
    decreases parts.len(),
{
    if parts.len() > 0 {
        let rest = parts.drop_first();
        assert forall|i: int| 0 <= i < rest.len() implies !((#[trigger] rest[i]) is RootDir) by {
            assert(rest[i] == parts[i + 1]);
        }
        lemma_dots(rest);
    }
}

/// A name is refused only for a reason, and the error says which: it holds a
/// NUL, it is absolute, it begins with `.`, or one of the pieces between its
/// slashes is `..`. Every other name is acceptable.
pub proof fn law_names_are_refused_for_a_reason(name: Seq<char>)
    ensures
        path_error(name) == if exists|i: int| 0 <= i < name.len() && #[trigger] name[i] == '\0' {
            Some(FilePathError::InvalidChar)
        } else if name.len() > 0 && name[0] == '/' {
            Some(FilePathError::Absolute)
        } else if pieces(name)[0] == seq!['.'] || exists|i: int|
            0 <= i < pieces(name).len() && #[trigger] pieces(name)[i] == seq!['.', '.'] {
            Some(FilePathError::DotDot)
        } else {
            None
        },
{
    if exists|i: int| 0 <= i < name.len() && #[trigger] name[i] == '\0' {
        let i = choose|i: int| 0 <= i < name.len() && #[trigger] name[i] == '\0';
        assert(name.contains('\0'));
    } else {
        if name.contains('\0') {
            let i = choose|i: int| 0 <= i < name.len() && name[i] == '\0';
            assert(name[i] == '\0');
        }
        let kept = pieces(name).filter(|piece: Seq<char>| counts(piece));
        let named = kept.map_values(|piece: Seq<char>| component_of(piece));
        let parts = components(name);
        if name.len() > 0 && name[0] == '/' {
            assert(parts[0] == Component::<Seq<char>>::RootDir);
        } else {
            assert forall|i: int| 0 <= i < parts.len() implies !((
            #[trigger] parts[i]) is RootDir) by {
                if pieces(name)[0] == seq!['.'] {
                    if i > 0 {
                        assert(parts[i] == named[i - 1]);
                    }
                } else {
                    assert(parts[i] == named[i]);
                }
            }
            lemma_dots(parts);
            lemma_component_error(parts);
            if pieces(name)[0] == seq!['.'] {
                assert(!(parts[0] is Normal));
            } else if exists|i: int|
                0 <= i < pieces(name).len() && #[trigger] pieces(name)[i] == seq!['.', '.'] {
                let i = choose|i: int|
                    0 <= i < pieces(name).len() && #[trigger] pieces(name)[i] == seq!['.', '.'];
                let up = seq!['.', '.'];
                assert(up.len() == 2 && seq!['.'].len() == 1);
                assert(counts(pieces(name)[i]));
                pieces(name).lemma_filter_contains(|piece: Seq<char>| counts(piece), i);
                let k = choose|k: int| 0 <= k < kept.len() && kept[k] == pieces(name)[i];
                assert(parts[k] == component_of(kept[k]));
                assert(!(parts[k] is Normal));
            } else {
                assert forall|k: int| 0 <= k < parts.len() implies (
                #[trigger] parts[k]) is Normal by {
                    assert(parts[k] == component_of(kept[k]));
                    assert(kept.contains(kept[k]));
                    pieces(name).lemma_filter_contains_rev(
                        |piece: Seq<char>| counts(piece),
                        kept[k],
                    );
                    let i = choose|i: int| 0 <= i < pieces(name).len() && pieces(name)[i]
                        == kept[k];
                    assert(pieces(name)[i] != seq!['.', '.']);
                }
            }
        }
    }
}

/// A plain name is any text but the empty one, `.` and `..`, in which there is
/// neither a slash nor a NUL.
pub proof fn law_plain_names(name: Seq<char>)
    ensures
        is_plain_name(name) <==> {
            &&& name.len() > 0
            &&& !(name.len() == 1 && name[0] == '.')
            &&& !(name.len() == 2 && name[0] == '.' && name[1] == '.')
            &&& forall|i: int|
                0 <= i < name.len() ==> #[trigger] name[i] != '/' && name[i] != '\0'
        },
{
    if name.len() == 1 && name[0] == '.' {
        assert(name =~= seq!['.']);
    }
    if name.len() == 2 && name[0] == '.' && name[1] == '.' {
        assert(name =~= seq!['.', '.']);
    }
    if is_plain_name(name) {
        assert forall|i: int| 0 <= i < name.len() implies #[trigger] name[i] != '/' && name[i]
            != '\0' by {
            assert(name[i] == '/' ==> name.contains('/'));
            assert(name[i] == '\0' ==> name.contains('\0'));
        }
    }
}

/// Every path of plain names is accepted as it is written, and is that path;
/// its text is what was written, and its parent is the path without the last
/// name.
pub proof fn law_plain_path_is_accepted(
    names: Seq<Seq<char>>,
    written: &str,
    out: Result<FilePath, FilePathError>,
    shown: String,
    parent: Option<FilePath>,
)
    requires
        forall|i: int| 0 <= i < names.len() ==> is_plain_name(#[trigger] names[i]),
        written@ == slash_join(names),
        call_ensures(FilePath::make_acceptable_filepath, (written,), out),
        out matches Ok(path) ==> call_ensures(FilePath::to_text, (&path,), shown),
        out matches Ok(path) ==> call_ensures(FilePath::parent, (&path,), parent),
    ensures
        out matches Ok(path) && path@ == names,
        shown@ == written@,
        parent is None <==> names.len() == 0,
        parent matches Some(above) ==> above@ == names.drop_last(),
{
    law_written_path_reads_back(names);
}

/// The first names of a path, written out, are read as those names.
pub proof fn law_start_of_a_path_reads_back(path: FilePath, count: usize, shown: String, n: usize)
    requires
        path.wf(),
        count <= path@.len(),
        call_ensures(FilePath::prefix_text, (&path, count), shown),
        call_ensures(FilePath::len, (&path,), n),
    ensures
        path_error(shown@) is None,
        path_names(shown@) == path@.take(count as int),
        n == path@.len(),
{
    let names = path@.take(count as int);
    assert forall|i: int| 0 <= i < names.len() implies is_plain_name(#[trigger] names[i]) by {
        assert(names[i] == path@[i]);
    }
    law_written_path_reads_back(names);
}

} // verus!
