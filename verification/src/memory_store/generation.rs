//! Memory artifacts with portable keys, sets of them, and the generations that publish them.

use crate::text::chars_of;
use crate::text::is_text_before;
use crate::text::lemma_text_before_asymmetric;
use crate::text::lemma_text_before_total;
use crate::text::lemma_text_before_transitive;
use crate::text::text_before;
use crate::text::ascii_upper;
use crate::text::ascii_uppercase;
use vstd::prelude::*;
use vstd::string::*;

verus! {

/// Why an artifact or a set of artifacts was refused.
#[derive(Debug, PartialEq, Eq)]
pub enum MemoryArtifactError {
    EmptyPath,
    NotPortable,
    /// The path is that of another artifact up to case.
    CaseCollision(String),
    /// Another artifact is a file where this path has a directory.
    FileDirectoryCollision(String),
}

impl MemoryArtifactError {
    pub open spec fn text(self) -> Seq<char> {
        match self {
            MemoryArtifactError::EmptyPath => "Memory Artifact path must not be empty"@,
            MemoryArtifactError::NotPortable => "Memory Artifact path must use portable relative components"@,
            MemoryArtifactError::CaseCollision(path) => "Memory Artifact set contains a case-insensitive collision at "@ + path@,
            MemoryArtifactError::FileDirectoryCollision(path) => "Memory Artifact set contains a file-directory collision at "@ + path@,
        }
    }

    pub fn message(&self) -> (text: String)
        ensures
            text@ == self.text(),
    {
        match self {
            MemoryArtifactError::EmptyPath => String::from_str("Memory Artifact path must not be empty"),
            MemoryArtifactError::NotPortable => String::from_str("Memory Artifact path must use portable relative components"),
            MemoryArtifactError::CaseCollision(path) => {
                String::from_str("Memory Artifact set contains a case-insensitive collision at ").concat(path.as_str())
            },
            MemoryArtifactError::FileDirectoryCollision(path) => {
                String::from_str("Memory Artifact set contains a file-directory collision at ").concat(path.as_str())
            },
        }
    }
}

/// `from..to` is one of the components that slashes separate.
pub open spec fn is_component(path: Seq<char>, from: int, to: int) -> bool {
    &&& 0 <= from <= to <= path.len()
    &&& from == 0 || path[from - 1] == '/'
    &&& to == path.len() || path[to] == '/'
    &&& forall|i: int| from <= i < to ==> #[trigger] path[i] != '/'
}

/// The name up to the first dot.
pub open spec fn is_stem(name: Seq<char>, end: int) -> bool {
    &&& 0 <= end <= name.len()
    &&& end == name.len() || name[end] == '.'
    &&& forall|i: int| 0 <= i < end ==> #[trigger] name[i] != '.'
}

/// The text in ASCII upper case is `word`.
pub open spec fn spells(text: Seq<char>, word: Seq<char>) -> bool {
    text.len() == word.len() && forall|i: int| 0 <= i < text.len() ==> ascii_upper(#[trigger] text[i]) == word[i]
}

/// Stems that name devices on some platforms.
pub open spec fn is_reserved_stem(stem: Seq<char>) -> bool {
    ||| spells(stem, seq!['C', 'O', 'N'])
    ||| spells(stem, seq!['P', 'R', 'N'])
    ||| spells(stem, seq!['A', 'U', 'X'])
    ||| spells(stem, seq!['N', 'U', 'L'])
    ||| stem.len() == 4 && '1' <= stem[3] <= '9' && (spells(stem.take(3), seq!['C', 'O', 'M']) || spells(stem.take(3), seq!['L', 'P', 'T']))
}

pub open spec fn is_portable_char(c: char) -> bool {
    &&& c as u32 > 0x1f
    &&& c != '<' && c != '>' && c != '"' && c != '|' && c != '?' && c != '*' && c != ':' && c != '\\'
}

/// A component that every supported platform can hold as a file name.
pub open spec fn is_portable_component(name: Seq<char>) -> bool {
    &&& name.len() > 0
    &&& name.last() != ' ' && name.last() != '.'
    &&& forall|i: int| 0 <= i < name.len() ==> is_portable_char(#[trigger] name[i])
    &&& forall|end: int| #[trigger] is_stem(name, end) ==> !is_reserved_stem(name.take(end))
}

/// A relative path all of whose components are portable.
pub open spec fn is_portable_path(path: Seq<char>) -> bool {
    &&& path.len() > 0
    &&& forall|from: int, to: int| #[trigger] is_component(path, from, to) ==> is_portable_component(path.subrange(from, to))
}

/// Whether the three characters from `from` spell a word of three letters.
fn spells_three(path: &Vec<char>, from: usize, a: char, b: char, c: char) -> (r: bool)
    requires
        from + 3 <= path.len(),
    ensures
        r == spells(path@.subrange(from as int, from + 3), seq![a, b, c]),
{
    let ghost text = path@.subrange(from as int, from + 3);
    let ghost word = seq![a, b, c];
    assert(text[0] == path@[from as int] && text[1] == path@[from + 1] && text[2] == path@[from + 2]);
    assert(word[0] == a && word[1] == b && word[2] == c);
    let r = ascii_uppercase(path[from]) == a && ascii_uppercase(path[from + 1]) == b && ascii_uppercase(path[from + 2]) == c;
    proof {
        if r {
            assert forall|i: int| 0 <= i < text.len() implies ascii_upper(#[trigger] text[i]) == word[i] by {
                assert(i == 0 || i == 1 || i == 2);
            }
        } else if spells(text, word) {
            assert(ascii_upper(text[0]) == word[0] && ascii_upper(text[1]) == word[1] && ascii_upper(text[2]) == word[2]);
        }
    }
    r
}

/// Whether the stem `from..end` of a component names a device.
fn is_reserved(path: &Vec<char>, from: usize, end: usize) -> (r: bool)
    requires
        from <= end <= path@.len(),
    ensures
        r == is_reserved_stem(path@.subrange(from as int, end as int)),
{
    let ghost stem = path@.subrange(from as int, end as int);
    if end - from == 3 {
        return spells_three(path, from, 'C', 'O', 'N') || spells_three(path, from, 'P', 'R', 'N')
            || spells_three(path, from, 'A', 'U', 'X') || spells_three(path, from, 'N', 'U', 'L');
    }
    if end - from == 4 {
        let digit: char = path[from + 3];
        assert(stem[3] == digit);
        assert(stem.take(3) =~= path@.subrange(from as int, from + 3));
        return '1' <= digit && digit <= '9' && (spells_three(path, from, 'C', 'O', 'M') || spells_three(path, from, 'L', 'P', 'T'));
    }
    false
}

/// Whether the component `from..to` is portable.
fn is_portable(path: &Vec<char>, from: usize, to: usize) -> (r: bool)
    requires
        from <= to <= path@.len(),
    ensures
        r == is_portable_component(path@.subrange(from as int, to as int)),
{
    let ghost name = path@.subrange(from as int, to as int);
    if from == to {
        return false;
    }
    let last: char = path[to - 1];
    assert(name.last() == last);
    if last == ' ' || last == '.' {
        return false;
    }
    let mut i: usize = from;
    while i < to
        invariant
            from <= i <= to <= path@.len(),
            name == path@.subrange(from as int, to as int),
            forall|k: int| 0 <= k < i - from ==> is_portable_char(#[trigger] name[k]),
        decreases to - i,
    {
        let c: char = path[i];
        assert(name[i - from] == c);
        if (c as u32) <= 0x1f || c == '<' || c == '>' || c == '"' || c == '|' || c == '?' || c == '*' || c == ':' || c == '\\' {
            assert(!is_portable_char(name[i - from]));
            return false;
        }
        i += 1;
    }
    let mut end: usize = from;
    while end < to && path[end] != '.'
        invariant
            from <= end <= to <= path@.len(),
            name == path@.subrange(from as int, to as int),
            forall|k: int| 0 <= k < end - from ==> #[trigger] name[k] != '.',
        decreases to - end,
    {
        assert(name[end - from] == path@[end as int]);
        end += 1;
    }
    assert(end < to ==> name[end - from] == path@[end as int]);
    assert(is_stem(name, end - from));
    assert(name.take(end - from) =~= path@.subrange(from as int, end as int));
    let reserved = is_reserved(path, from, end);
    proof {
        assert forall|other: int| #[trigger] is_stem(name, other) implies other == end - from by {
            if other < end - from {
                assert(name[other] == '.');
            } else if other > end - from {
                assert(name[end - from] == '.');
            }
        }
    }
    !reserved
}

/// Whether the path is portable; it is not empty.
fn is_portable_text(path: &Vec<char>) -> (r: bool)
    requires
        path@.len() > 0,
    ensures
        r == is_portable_path(path@),
{
    let mut from: usize = 0;
    loop
        invariant
            from <= path@.len(),
            from == 0 || path@[from - 1] == '/',
            forall|a: int, b: int| #[trigger] is_component(path@, a, b) && a < from ==> is_portable_component(path@.subrange(a, b)),
            path@.len() > 0,
        decreases path@.len() - from,
    {
        let mut to: usize = from;
        while to < path.len() && path[to] != '/'
            invariant
                from <= to <= path@.len(),
                forall|i: int| from <= i < to ==> #[trigger] path@[i] != '/',
            decreases path@.len() - to,
        {
            to += 1;
        }
        assert(is_component(path@, from as int, to as int));
        proof {
            assert forall|a: int, b: int| #[trigger] is_component(path@, a, b) && a <= to implies a < from || a == from && b == to by {
                if a > from {
                    assert(path@[a - 1] == '/');
                } else if a == from {
                    if b < to {
                        assert(path@[b] == '/');
                    } else if b > to {
                        assert(path@[to as int] == '/');
                    }
                }
            }
        }
        if !is_portable(path, from, to) {
            return false;
        }
        if to == path.len() {
            return true;
        }
        from = to + 1;
    }
}

/// One immutable file-like value within a complete Memory Generation.
#[derive(Debug, PartialEq, Eq)]
pub struct MemoryArtifact {
    /// Portable path key relative to a disposable memory workspace.
    path: String,
    contents: Vec<u8>,
}

#[verifier::ext_equal]
pub struct MemoryArtifactView {
    pub path: Seq<char>,
    pub contents: Seq<u8>,
}

impl View for MemoryArtifact {
    type V = MemoryArtifactView;

    closed spec fn view(&self) -> MemoryArtifactView {
        MemoryArtifactView { path: self.path@, contents: self.contents@ }
    }
}

impl Clone for MemoryArtifact {
    fn clone(&self) -> (copy: Self)
        ensures
            copy@ == self@,
    {
        proof {
            use_type_invariant(self);
        }
        let mut contents: Vec<u8> = Vec::new();
        let mut i: usize = 0;
        while i < self.contents.len()
            invariant
                i <= self.contents@.len(),
                contents@ == self.contents@.take(i as int),
            decreases self.contents@.len() - i,
        {
            contents.push(self.contents[i]);
            assert(self.contents@.take(i + 1) =~= self.contents@.take(i as int).push(self.contents@[i as int]));
            i += 1;
        }
        assert(self.contents@.take(i as int) =~= self.contents@);
        MemoryArtifact { path: self.path.clone(), contents }
    }
}

impl MemoryArtifact {
    #[verifier::type_invariant]
    spec fn inv(self) -> bool {
        is_portable_path(self.path@)
    }

    /// Creates an artifact after validating its portable, workspace-relative path key.
    pub fn new(path: &str, contents: Vec<u8>) -> (result: Result<Self, MemoryArtifactError>)
        ensures
            match result {
                Ok(artifact) => is_portable_path(path@) && artifact@ == (MemoryArtifactView { path: path@, contents: contents@ }),
                Err(MemoryArtifactError::EmptyPath) => path@.len() == 0,
                Err(MemoryArtifactError::NotPortable) => path@.len() > 0 && !is_portable_path(path@),
                Err(_) => false,
            },
    {
        let chars = chars_of(path);
        if chars.len() == 0 {
            return Err(MemoryArtifactError::EmptyPath);
        }
        if !is_portable_text(&chars) {
            return Err(MemoryArtifactError::NotPortable);
        }
        Ok(MemoryArtifact { path: path.to_owned(), contents })
    }

    /// Returns the portable path key relative to the memory workspace.
    pub fn path(&self) -> (path: &str)
        ensures
            path@ == self@.path,
            is_portable_path(path@),
    {
        proof {
            use_type_invariant(self);
        }
        self.path.as_str()
    }

    /// Returns the exact artifact bytes stored in the generation.
    pub fn contents(&self) -> (contents: &[u8])
        ensures
            contents@ == self@.contents,
    {
        self.contents.as_slice()
    }
}

/// Upper-case mapping of one character.
pub uninterp spec fn uppercase(c: char) -> Seq<char>;

/// `char::to_uppercase`: the characters of the upper-case mapping, which depend on the character
/// alone. An ASCII letter is mapped to its upper-case letter and another ASCII character to
/// itself, and no character but the slash is mapped to a slash. Which characters the others are
/// mapped to is not stated.
#[verifier::external_body]
fn uppercase_of(c: char) -> (upper: Vec<char>)
    ensures
        upper@ == uppercase(c),
        (c as u32) < 128 ==> upper@ == seq![ascii_upper(c)],
        c != '/' ==> !upper@.contains('/'),
{
    c.to_uppercase().collect()
}

/// An ASCII character has its ASCII upper case, and only a slash is mapped to a slash.
pub open spec fn has_plain_upper(c: char) -> bool {
    &&& (c as u32) < 128 ==> uppercase(c) == seq![ascii_upper(c)]
    &&& c != '/' ==> !uppercase(c).contains('/')
}

/// The upper case of every character is as expected of ASCII characters and slashes.
pub open spec fn has_plain_fold(text: Seq<char>) -> bool {
    forall|i: int| 0 <= i < text.len() ==> has_plain_upper(#[trigger] text[i])
}

pub open spec fn have_plain_folds(artifacts: Seq<MemoryArtifactView>) -> bool {
    forall|i: int| 0 <= i < artifacts.len() ==> has_plain_fold(#[trigger] artifacts[i].path)
}

/// The text with every character replaced by its upper-case mapping.
pub open spec fn case_folded(text: Seq<char>) -> Seq<char>
    decreases text.len(),
{
    if text.len() == 0 {
        Seq::empty()
    } else {
        case_folded(text.drop_last()) + uppercase(text.last())
    }
}

fn case_fold(text: &str) -> (folded: Vec<char>)
    ensures
        folded@ == case_folded(text@),
        has_plain_fold(text@),
{
    let chars = chars_of(text);
    let mut folded: Vec<char> = Vec::new();
    let mut i: usize = 0;
    while i < chars.len()
        invariant
            chars@ == text@,
            i <= chars@.len(),
            folded@ == case_folded(text@.take(i as int)),
            forall|j: int| 0 <= j < i ==> has_plain_upper(#[trigger] text@[j]),
        decreases chars@.len() - i,
    {
        let mut upper = uppercase_of(chars[i]);
        assert(has_plain_upper(text@[i as int]));
        folded.append(&mut upper);
        assert(text@.take(i + 1).drop_last() =~= text@.take(i as int));
        i += 1;
    }
    assert(text@.take(i as int) =~= text@);
    folded
}

/// Position `second` repeats an earlier path up to case.
pub open spec fn repeats_path(artifacts: Seq<MemoryArtifactView>, second: int) -> bool {
    exists|first: int| 0 <= first < second && case_folded(#[trigger] artifacts[first].path) == case_folded(artifacts[second].path)
}

/// One of the directories of the path at `at` is the path of an artifact, up to case.
pub open spec fn nests_in_file(artifacts: Seq<MemoryArtifactView>, at: int) -> bool {
    exists|slash: int, file: int| #[trigger] nests_in(artifacts, at, slash, file)
}

/// The directory that ends before `slash` in the path at `at` is the path of `file`, up to case.
pub open spec fn nests_in(artifacts: Seq<MemoryArtifactView>, at: int, slash: int, file: int) -> bool {
    let folded = case_folded(artifacts[at].path);
    &&& 0 <= file < artifacts.len()
    &&& 0 <= slash < folded.len()
    &&& folded[slash] == '/'
    &&& case_folded(artifacts[file].path) == folded.take(slash)
}

/// No two artifacts have the same path up to case.
pub open spec fn case_distinct(artifacts: Seq<MemoryArtifactView>) -> bool {
    forall|i: int| 0 <= i < artifacts.len() ==> !#[trigger] repeats_path(artifacts, i)
}

/// The artifacts can be laid out together on any supported platform.
pub open spec fn is_collision_free(artifacts: Seq<MemoryArtifactView>) -> bool {
    &&& case_distinct(artifacts)
    &&& forall|i: int| 0 <= i < artifacts.len() ==> !#[trigger] nests_in_file(artifacts, i)
}

/// The artifacts stand in the order of their paths.
pub open spec fn in_path_order(artifacts: Seq<MemoryArtifactView>) -> bool {
    forall|i: int, j: int|
        #![trigger artifacts[i], artifacts[j]]
        0 <= i < j < artifacts.len() ==> text_before(artifacts[i].path, artifacts[j].path)
}

/// Both sequences have the same members, equally many.
pub open spec fn same_members<A>(left: Seq<A>, right: Seq<A>) -> bool {
    &&& left.len() == right.len()
    &&& forall|item: A| #[trigger] left.contains(item) <==> right.contains(item)
}

/// What a set of artifacts guarantees: collision free, and ordered by path.
pub open spec fn is_artifact_set(artifacts: Seq<MemoryArtifactView>) -> bool {
    &&& is_collision_free(artifacts)
    &&& in_path_order(artifacts)
    &&& have_plain_folds(artifacts)
}

/// Why the artifacts do not make a set: the first repetition up to case, and if there is none, the
/// first path that needs a directory where another artifact is a file.
pub open spec fn refuses_set(artifacts: Seq<MemoryArtifactView>, error: MemoryArtifactError) -> bool {
    match error {
        MemoryArtifactError::CaseCollision(path) => exists|at: int| {
            &&& 0 <= at < artifacts.len()
            &&& #[trigger] repeats_path(artifacts, at)
            &&& forall|i: int| 0 <= i < at ==> !#[trigger] repeats_path(artifacts, i)
            &&& path@ == artifacts[at].path
        },
        MemoryArtifactError::FileDirectoryCollision(path) => case_distinct(artifacts) && exists|at: int| {
            &&& 0 <= at < artifacts.len()
            &&& #[trigger] nests_in_file(artifacts, at)
            &&& forall|i: int| 0 <= i < at ==> !#[trigger] nests_in_file(artifacts, i)
            &&& path@ == artifacts[at].path
        },
        _ => false,
    }
}

/// The views of artifacts.
pub open spec fn artifact_views(artifacts: Seq<MemoryArtifact>) -> Seq<MemoryArtifactView> {
    Seq::new(artifacts.len(), |i: int| artifacts[i]@)
}

fn same_chars(left: &Vec<char>, right: &Vec<char>, size: usize) -> (same: bool)
    requires
        size <= right@.len(),
    ensures
        same == (left@ == right@.take(size as int)),
{
    if left.len() != size {
        return false;
    }
    let mut i: usize = 0;
    while i < size
        invariant
            size == left@.len(),
            size <= right@.len(),
            i <= size,
            forall|j: int| 0 <= j < i ==> left@[j] == right@[j],
        decreases size - i,
    {
        if left[i] != right[i] {
            assert(left@[i as int] != right@.take(size as int)[i as int]);
            return false;
        }
        i += 1;
    }
    assert(left@ =~= right@.take(size as int));
    true
}

/// The views of folds.
pub open spec fn fold_views(folds: Seq<Vec<char>>) -> Seq<Seq<char>> {
    Seq::new(folds.len(), |i: int| folds[i]@)
}

/// The folds of the paths, in order.
pub open spec fn path_folds(artifacts: Seq<MemoryArtifactView>) -> Seq<Seq<char>> {
    Seq::new(artifacts.len(), |i: int| case_folded(artifacts[i].path))
}

/// The fold at `second` stands at an earlier position too.
pub open spec fn repeats_fold(folds: Seq<Seq<char>>, second: int) -> bool {
    exists|first: int| 0 <= first < second && #[trigger] folds[first] == folds[second]
}

/// The part of the fold at `at` that ends before its slash at `slash` is the fold `file`.
pub open spec fn nests_in_fold(folds: Seq<Seq<char>>, at: int, slash: int, file: int) -> bool {
    &&& 0 <= file < folds.len()
    &&& 0 <= slash < folds[at].len()
    &&& folds[at][slash] == '/'
    &&& folds[file] == folds[at].take(slash)
}

/// A part of the fold at `at` that ends before a slash is a fold.
pub open spec fn nests_fold(folds: Seq<Seq<char>>, at: int) -> bool {
    exists|slash: int, file: int| #[trigger] nests_in_fold(folds, at, slash, file)
}

/// How folded paths collide, and where they do first.
#[derive(Clone, Copy, Debug, PartialEq, Eq, Structural)]
pub enum FoldCollision {
    /// The fold at this position repeats an earlier one.
    Repeated(usize),
    /// The fold at this position needs a directory where another fold is a file.
    Nested(usize),
}

/// The first repetition and, if there is none, the first nesting.
pub open spec fn is_first_collision(folds: Seq<Seq<char>>, found: Option<FoldCollision>) -> bool {
    match found {
        Some(FoldCollision::Repeated(at)) => {
            &&& at < folds.len()
            &&& repeats_fold(folds, at as int)
            &&& forall|i: int| 0 <= i < at ==> !#[trigger] repeats_fold(folds, i)
        },
        Some(FoldCollision::Nested(at)) => {
            &&& forall|i: int| 0 <= i < folds.len() ==> !#[trigger] repeats_fold(folds, i)
            &&& at < folds.len()
            &&& nests_fold(folds, at as int)
            &&& forall|i: int| 0 <= i < at ==> !#[trigger] nests_fold(folds, i)
        },
        None => {
            &&& forall|i: int| 0 <= i < folds.len() ==> !#[trigger] repeats_fold(folds, i)
            &&& forall|i: int| 0 <= i < folds.len() ==> !#[trigger] nests_fold(folds, i)
        },
    }
}

/// Paths collide where their folds do.
proof fn lemma_folds_of_paths(artifacts: Seq<MemoryArtifactView>, at: int)
    requires
        0 <= at < artifacts.len(),
    ensures
        repeats_fold(path_folds(artifacts), at) == repeats_path(artifacts, at),
        nests_fold(path_folds(artifacts), at) == nests_in_file(artifacts, at),
{
    let folds = path_folds(artifacts);
    assert(forall|i: int| 0 <= i < artifacts.len() ==> #[trigger] folds[i] == case_folded(artifacts[i].path));
    if repeats_fold(folds, at) {
        let first = choose|first: int| 0 <= first < at && #[trigger] folds[first] == folds[at];
        assert(case_folded(artifacts[first].path) == case_folded(artifacts[at].path));
    }
    if repeats_path(artifacts, at) {
        let first = choose|first: int| 0 <= first < at && case_folded(#[trigger] artifacts[first].path) == case_folded(artifacts[at].path);
        assert(folds[first] == folds[at]);
    }
    if nests_fold(folds, at) {
        let (slash, file) = choose|slash: int, file: int| #[trigger] nests_in_fold(folds, at, slash, file);
        assert(nests_in(artifacts, at, slash, file));
    }
    if nests_in_file(artifacts, at) {
        let (slash, file) = choose|slash: int, file: int| #[trigger] nests_in(artifacts, at, slash, file);
        assert(nests_in_fold(folds, at, slash, file));
    }
}

/// The folds of the paths, in order.
fn case_fold_paths(artifacts: &Vec<MemoryArtifact>) -> (folds: Vec<Vec<char>>)
    ensures
        fold_views(folds@) == path_folds(artifact_views(artifacts@)),
        have_plain_folds(artifact_views(artifacts@)),
{
    let ghost views = artifact_views(artifacts@);
    let mut folds: Vec<Vec<char>> = Vec::new();
    let mut i: usize = 0;
    while i < artifacts.len()
        invariant
            views == artifact_views(artifacts@),
            i <= artifacts@.len(),
            folds@.len() == i,
            forall|j: int| 0 <= j < i ==> #[trigger] folds@[j]@ == case_folded(views[j].path),
            forall|j: int| 0 <= j < i ==> has_plain_fold(#[trigger] views[j].path),
        decreases artifacts@.len() - i,
    {
        assert(views[i as int] == artifacts@[i as int]@);
        folds.push(case_fold(artifacts[i].path()));
        i += 1;
    }
    assert(fold_views(folds@) =~= path_folds(views));
    folds
}

/// The first fold that repeats an earlier one.
fn first_repetition(folds: &[Vec<char>]) -> (found: Option<usize>)
    ensures
        match found {
            Some(at) => {
                &&& at < folds@.len()
                &&& repeats_fold(fold_views(folds@), at as int)
                &&& forall|i: int| 0 <= i < at ==> !#[trigger] repeats_fold(fold_views(folds@), i)
            },
            None => forall|i: int| 0 <= i < folds@.len() ==> !#[trigger] repeats_fold(fold_views(folds@), i),
        },
{
    let ghost views = fold_views(folds@);
    let mut at: usize = 0;
    while at < folds.len()
        invariant
            views == fold_views(folds@),
            at <= folds@.len(),
            forall|i: int| 0 <= i < at ==> !#[trigger] repeats_fold(views, i),
        decreases folds@.len() - at,
    {
        let mut first: usize = 0;
        while first < at
            invariant
                views == fold_views(folds@),
                first <= at < folds@.len(),
                forall|i: int| 0 <= i < at ==> !#[trigger] repeats_fold(views, i),
                forall|i: int| 0 <= i < first ==> #[trigger] views[i] != views[at as int],
            decreases at - first,
        {
            assert(folds@[at as int]@.take(folds@[at as int]@.len() as int) =~= folds@[at as int]@);
            assert(views[first as int] == folds@[first as int]@ && views[at as int] == folds@[at as int]@);
            if same_chars(&folds[first], &folds[at], folds[at].len()) {
                assert(repeats_fold(views, at as int));
                return Some(at);
            }
            first += 1;
        }
        at += 1;
    }
    None
}

/// The first fold that needs a directory where a fold is a file.
fn first_nesting(folds: &[Vec<char>]) -> (found: Option<usize>)
    ensures
        match found {
            Some(at) => {
                &&& at < folds@.len()
                &&& nests_fold(fold_views(folds@), at as int)
                &&& forall|i: int| 0 <= i < at ==> !#[trigger] nests_fold(fold_views(folds@), i)
            },
            None => forall|i: int| 0 <= i < folds@.len() ==> !#[trigger] nests_fold(fold_views(folds@), i),
        },
{
    let ghost views = fold_views(folds@);
    let mut at: usize = 0;
    while at < folds.len()
        invariant
            views == fold_views(folds@),
            at <= folds@.len(),
            forall|i: int| 0 <= i < at ==> !#[trigger] nests_fold(views, i),
        decreases folds@.len() - at,
    {
        let mut slash: usize = 0;
        while slash < folds[at].len()
            invariant
                views == fold_views(folds@),
                at < folds@.len(),
                slash <= folds@[at as int]@.len(),
                forall|i: int| 0 <= i < at ==> !#[trigger] nests_fold(views, i),
                forall|s: int, file: int| #[trigger] nests_in_fold(views, at as int, s, file) ==> s >= slash,
            decreases folds@[at as int]@.len() - slash,
        {
            if folds[at][slash] == '/' {
                let mut file: usize = 0;
                while file < folds.len()
                    invariant
                        views == fold_views(folds@),
                        at < folds@.len(),
                        slash < folds@[at as int]@.len(),
                        folds@[at as int]@[slash as int] == '/',
                        file <= folds@.len(),
                        forall|i: int| 0 <= i < at ==> !#[trigger] nests_fold(views, i),
                        forall|s: int, f: int| #[trigger] nests_in_fold(views, at as int, s, f) ==> s > slash || s == slash && f >= file,
                    decreases folds@.len() - file,
                {
                    if same_chars(&folds[file], &folds[at], slash) {
                        assert(nests_in_fold(views, at as int, slash as int, file as int));
                        return Some(at);
                    }
                    file += 1;
                }
            }
            slash += 1;
        }
        at += 1;
    }
    None
}

/// How folded paths collide: the first that repeats an earlier one and, if there is none, the
/// first that needs a directory where another one is a file.
pub fn first_collision(folds: &[Vec<char>]) -> (found: Option<FoldCollision>)
    ensures
        is_first_collision(fold_views(folds@), found),
{
    if let Some(at) = first_repetition(folds) {
        return Some(FoldCollision::Repeated(at));
    }
    match first_nesting(folds) {
        Some(at) => Some(FoldCollision::Nested(at)),
        None => None,
    }
}

/// A complete, deterministically ordered artifact set safe to materialize on supported platforms.
#[derive(Debug, PartialEq, Eq)]
pub struct MemoryArtifactSet {
    artifacts: Vec<MemoryArtifact>,
}

impl View for MemoryArtifactSet {
    type V = Seq<MemoryArtifactView>;

    closed spec fn view(&self) -> Seq<MemoryArtifactView> {
        artifact_views(self.artifacts@)
    }
}

impl Clone for MemoryArtifactSet {
    fn clone(&self) -> (copy: Self)
        ensures
            copy@ == self@,
    {
        proof {
            use_type_invariant(self);
        }
        let artifacts = clone_artifacts(&self.artifacts);
        MemoryArtifactSet { artifacts }
    }
}

fn clone_artifacts(artifacts: &Vec<MemoryArtifact>) -> (copy: Vec<MemoryArtifact>)
    ensures
        artifact_views(copy@) == artifact_views(artifacts@),
{
    let mut copy: Vec<MemoryArtifact> = Vec::new();
    let mut i: usize = 0;
    while i < artifacts.len()
        invariant
            i <= artifacts@.len(),
            copy@.len() == i,
            forall|j: int| 0 <= j < i ==> #[trigger] copy@[j]@ == artifacts@[j]@,
        decreases artifacts@.len() - i,
    {
        copy.push(artifacts[i].clone());
        i += 1;
    }
    assert(artifact_views(copy@) =~= artifact_views(artifacts@));
    copy
}

/// Insert an artifact at its place in a path-ordered sequence.
fn insert_in_order(ordered: &mut Vec<MemoryArtifact>, artifact: MemoryArtifact)
    requires
        in_path_order(artifact_views(old(ordered)@)),
        forall|i: int| 0 <= i < old(ordered)@.len() ==> #[trigger] artifact_views(old(ordered)@)[i].path != artifact@.path,
    ensures
        in_path_order(artifact_views(final(ordered)@)),
        exists|at: int| 0 <= at <= old(ordered)@.len() && artifact_views(final(ordered)@) == #[trigger] artifact_views(old(ordered)@).insert(at, artifact@),
{
    let ghost before = artifact_views(ordered@);
    let ghost value = artifact@;
    let mut at: usize = 0;
    while at < ordered.len() && is_text_before(ordered[at].path(), artifact.path())
        invariant
            before == artifact_views(ordered@),
            artifact@ == value,
            at <= ordered@.len(),
            forall|i: int| 0 <= i < at ==> text_before(#[trigger] before[i].path, value.path),
        decreases ordered@.len() - at,
    {
        assert(before[at as int] == ordered@[at as int]@);
        at += 1;
    }
    proof {
        if at < before.len() {
            assert(before[at as int] == ordered@[at as int]@);
            lemma_text_before_total(before[at as int].path, value.path);
        }
    }
    ordered.insert(at, artifact);
    proof {
        let after = artifact_views(ordered@);
        assert(after =~= before.insert(at as int, value));
        assert forall|i: int, j: int| #![trigger after[i], after[j]] 0 <= i < j < after.len() implies text_before(after[i].path, after[j].path) by {
            if i == at {
                assert(after[j] == before[j - 1]);
                if j - 1 > at {
                    assert(text_before(before[at as int].path, before[j - 1].path));
                    lemma_text_before_transitive(value.path, before[at as int].path, before[j - 1].path);
                }
            } else if j == at {
                assert(after[i] == before[i]);
            } else {
                let a = if i < at { i } else { i - 1 };
                let b = if j < at { j } else { j - 1 };
                assert(after[i] == before[a] && after[j] == before[b]);
            }
        }
    }
}

/// Distinct members that stand in path order are collision free if any arrangement of them is.
pub proof fn lemma_collision_free_members(left: Seq<MemoryArtifactView>, right: Seq<MemoryArtifactView>)
    requires
        is_collision_free(left),
        same_members(left, right),
        in_path_order(right),
    ensures
        is_collision_free(right),
{
    assert forall|i: int| 0 <= i < right.len() implies !#[trigger] repeats_path(right, i) by {
        if repeats_path(right, i) {
            let first = choose|first: int| 0 <= first < i && case_folded(#[trigger] right[first].path) == case_folded(right[i].path);
            assert(right.contains(right[first]) && right.contains(right[i]));
            assert(left.contains(right[first]) && left.contains(right[i]));
            let a = choose|a: int| 0 <= a < left.len() && left[a] == right[first];
            let b = choose|b: int| 0 <= b < left.len() && left[b] == right[i];
            assert(text_before(right[first].path, right[i].path));
            lemma_text_before_irreflexive(right[first].path);
            assert(a != b);
            if a < b {
                assert(case_folded(left[a].path) == case_folded(left[b].path));
                assert(repeats_path(left, b));
            } else {
                assert(case_folded(left[b].path) == case_folded(left[a].path));
                assert(repeats_path(left, a));
            }
        }
    }
    assert forall|i: int| 0 <= i < right.len() implies !#[trigger] nests_in_file(right, i) by {
        if nests_in_file(right, i) {
            let (slash, file) = choose|slash: int, file: int| #[trigger] nests_in(right, i, slash, file);
            assert(right.contains(right[file]) && right.contains(right[i]));
            assert(left.contains(right[file]) && left.contains(right[i]));
            let a = choose|a: int| 0 <= a < left.len() && left[a] == right[i];
            let b = choose|b: int| 0 <= b < left.len() && left[b] == right[file];
            assert(nests_in(left, a, slash, b));
            assert(nests_in_file(left, a));
        }
    }
}

/// Arrangements of the same members have plain folds together.
pub proof fn lemma_plain_members(left: Seq<MemoryArtifactView>, right: Seq<MemoryArtifactView>)
    requires
        have_plain_folds(left),
        same_members(left, right),
    ensures
        have_plain_folds(right),
{
    assert forall|i: int| 0 <= i < right.len() implies has_plain_fold(#[trigger] right[i].path) by {
        assert(right.contains(right[i]));
        assert(left.contains(right[i]));
        let j = choose|j: int| 0 <= j < left.len() && left[j] == right[i];
        assert(has_plain_fold(left[j].path));
    }
}

proof fn lemma_text_before_irreflexive(text: Seq<char>)
    ensures
        !text_before(text, text),
{
    if text_before(text, text) {
        lemma_text_before_asymmetric(text, text);
    }
}

impl MemoryArtifactSet {
    #[verifier::type_invariant]
    spec fn inv(self) -> bool {
        is_artifact_set(artifact_views(self.artifacts@))
    }

    /// Validates cross-filesystem key uniqueness and orders artifacts by their portable keys.
    pub fn new(artifacts: Vec<MemoryArtifact>) -> (result: Result<Self, MemoryArtifactError>)
        ensures
            match result {
                Ok(set) => {
                    &&& is_collision_free(artifact_views(artifacts@))
                    &&& is_artifact_set(set@)
                    &&& same_members(artifact_views(artifacts@), set@)
                },
                Err(error) => refuses_set(artifact_views(artifacts@), error),
            },
    {
        let ghost views = artifact_views(artifacts@);
        let folds = case_fold_paths(&artifacts);
        proof {
            assert forall|i: int| 0 <= i < views.len() implies #[trigger] repeats_path(views, i) == repeats_fold(path_folds(views), i) by {
                lemma_folds_of_paths(views, i);
            }
            assert forall|i: int| 0 <= i < views.len() implies #[trigger] nests_in_file(views, i) == nests_fold(path_folds(views), i) by {
                lemma_folds_of_paths(views, i);
            }
        }
        match first_collision(folds.as_slice()) {
            Some(FoldCollision::Repeated(at)) => {
                assert(repeats_path(views, at as int));
                assert(views[at as int] == artifacts@[at as int]@);
                return Err(MemoryArtifactError::CaseCollision(artifacts[at].path().to_owned()));
            },
            Some(FoldCollision::Nested(at)) => {
                assert(nests_in_file(views, at as int));
                assert(views[at as int] == artifacts@[at as int]@);
                return Err(MemoryArtifactError::FileDirectoryCollision(artifacts[at].path().to_owned()));
            },
            None => {},
        }
        let mut ordered: Vec<MemoryArtifact> = Vec::new();
        let mut i: usize = 0;
        while i < artifacts.len()
            invariant
                views == artifact_views(artifacts@),
                is_collision_free(views),
                have_plain_folds(views),
                i <= artifacts@.len(),
                in_path_order(artifact_views(ordered@)),
                same_members(views.take(i as int), artifact_views(ordered@)),
            decreases artifacts@.len() - i,
        {
            let ghost so_far = artifact_views(ordered@);
            let ghost earlier = views.take(i as int);
            let ghost value = views[i as int];
            assert(value == artifacts@[i as int]@);
            proof {
                assert forall|j: int| 0 <= j < ordered@.len() implies #[trigger] so_far[j].path != value.path by {
                    assert(so_far.contains(so_far[j]));
                    assert(earlier.contains(so_far[j]));
                    let k = choose|k: int| 0 <= k < earlier.len() && earlier[k] == so_far[j];
                    if so_far[j].path == value.path {
                        assert(case_folded(views[k].path) == case_folded(views[i as int].path));
                        assert(repeats_path(views, i as int));
                    }
                }
            }
            insert_in_order(&mut ordered, artifacts[i].clone());
            proof {
                let now = artifact_views(ordered@);
                let at = choose|at: int| 0 <= at <= so_far.len() && now == #[trigger] so_far.insert(at, value);
                let later = views.take(i + 1);
                assert(later =~= earlier.push(value));
                assert forall|item: MemoryArtifactView| #[trigger] later.contains(item) <==> now.contains(item) by {
                    if later.contains(item) {
                        let k = choose|k: int| 0 <= k < later.len() && later[k] == item;
                        if k == i {
                            assert(now[at] == item);
                        } else {
                            assert(earlier[k] == item);
                            assert(earlier.contains(item));
                            assert(so_far.contains(item));
                            let j = choose|j: int| 0 <= j < so_far.len() && so_far[j] == item;
                            assert(now[if j < at { j } else { j + 1 }] == item);
                        }
                    }
                    if now.contains(item) {
                        let j = choose|j: int| 0 <= j < now.len() && now[j] == item;
                        if j == at {
                            assert(later[i as int] == item);
                        } else {
                            assert(so_far[if j < at { j } else { j - 1 }] == item);
                            assert(so_far.contains(item));
                            assert(earlier.contains(item));
                            let k = choose|k: int| 0 <= k < earlier.len() && earlier[k] == item;
                            assert(later[k] == item);
                        }
                    }
                }
            }
            i += 1;
        }
        assert(views.take(i as int) =~= views);
        proof {
            lemma_collision_free_members(views, artifact_views(ordered@));
            lemma_plain_members(views, artifact_views(ordered@));
        }
        Ok(MemoryArtifactSet { artifacts: ordered })
    }

    /// Returns the complete artifact set in portable path order.
    pub fn artifacts(&self) -> (artifacts: &[MemoryArtifact])
        ensures
            artifact_views(artifacts@) == self@,
            is_artifact_set(self@),
    {
        proof {
            use_type_invariant(self);
        }
        self.artifacts.as_slice()
    }
}

/// Backend-neutral action for synchronizing the disposable local memory workspace.
#[derive(Debug, PartialEq, Eq)]
pub enum MemoryWorkspaceMaterialization {
    /// Keep the filesystem-authoritative workspace unchanged.
    Preserve,
    /// Replace the local workspace with one complete authoritative generation.
    Replace {
        /// Immutable identity used to detect publication changes during materialization.
        generation_id: String,
        /// Complete artifact set published by the generation.
        artifacts: MemoryArtifactSet,
    },
    /// Replace the local workspace with an empty artifact set.
    Clear,
}

impl Clone for MemoryWorkspaceMaterialization {
    fn clone(&self) -> (copy: Self)
        ensures
            match (*self, copy) {
                (
                    MemoryWorkspaceMaterialization::Replace { generation_id, artifacts },
                    MemoryWorkspaceMaterialization::Replace { generation_id: copied_id, artifacts: copied },
                ) => copied_id == generation_id && copied@ == artifacts@,
                (MemoryWorkspaceMaterialization::Preserve, MemoryWorkspaceMaterialization::Preserve) => true,
                (MemoryWorkspaceMaterialization::Clear, MemoryWorkspaceMaterialization::Clear) => true,
                _ => false,
            },
    {
        match self {
            MemoryWorkspaceMaterialization::Preserve => MemoryWorkspaceMaterialization::Preserve,
            MemoryWorkspaceMaterialization::Replace { generation_id, artifacts } => MemoryWorkspaceMaterialization::Replace {
                generation_id: generation_id.clone(),
                artifacts: artifacts.clone(),
            },
            MemoryWorkspaceMaterialization::Clear => MemoryWorkspaceMaterialization::Clear,
        }
    }
}

/// Complete Memory Artifact snapshot published by one successful consolidation.
#[derive(Debug, PartialEq, Eq)]
pub struct MemoryGeneration {
    generation_id: String,
    completed_watermark: i64,
    published_at: i64,
    artifacts: MemoryArtifactSet,
}

#[verifier::ext_equal]
pub struct MemoryGenerationView {
    pub generation_id: Seq<char>,
    pub completed_watermark: i64,
    pub published_at: i64,
    pub artifacts: Seq<MemoryArtifactView>,
}

impl View for MemoryGeneration {
    type V = MemoryGenerationView;

    closed spec fn view(&self) -> MemoryGenerationView {
        MemoryGenerationView {
            generation_id: self.generation_id@,
            completed_watermark: self.completed_watermark,
            published_at: self.published_at,
            artifacts: self.artifacts@,
        }
    }
}

impl Clone for MemoryGeneration {
    fn clone(&self) -> (copy: Self)
        ensures
            copy@ == self@,
    {
        MemoryGeneration {
            generation_id: self.generation_id.clone(),
            completed_watermark: self.completed_watermark,
            published_at: self.published_at,
            artifacts: self.artifacts.clone(),
        }
    }
}

impl MemoryGeneration {
    pub fn new(
        generation_id: String,
        completed_watermark: i64,
        published_at: i64,
        artifacts: MemoryArtifactSet,
    ) -> (generation: Self)
        ensures
            generation@ == (MemoryGenerationView {
                generation_id: generation_id@,
                completed_watermark,
                published_at,
                artifacts: artifacts@,
            }),
    {
        MemoryGeneration { generation_id, completed_watermark, published_at, artifacts }
    }

    /// Returns the immutable identifier assigned when the generation was published.
    pub fn generation_id(&self) -> (id: &str)
        ensures
            id@ == self@.generation_id,
    {
        self.generation_id.as_str()
    }

    /// Returns the phase-two input watermark completed by this generation.
    pub fn completed_watermark(&self) -> (watermark: i64)
        ensures
            watermark == self@.completed_watermark,
    {
        self.completed_watermark
    }

    /// Returns the generation publication time as Unix seconds.
    pub fn published_at(&self) -> (at: i64)
        ensures
            at == self@.published_at,
    {
        self.published_at
    }

    /// Returns the generation's complete artifact set in portable path order.
    pub fn artifacts(&self) -> (artifacts: &[MemoryArtifact])
        ensures
            artifact_views(artifacts@) == self@.artifacts,
            is_artifact_set(self@.artifacts),
    {
        self.artifacts.artifacts()
    }

    pub fn into_artifact_set(self) -> (artifacts: MemoryArtifactSet)
        ensures
            artifacts@ == self@.artifacts,
    {
        self.artifacts
    }
}

} // verus!
