//! Paths of a file system: their steps, their order, and the names in a directory.

use vstd::prelude::*;

use crate::text::{
    ascii_alphabetic, ascii_lower, is_alphabetic, part_of, rows, split, split_chars, string_of, to_ascii_lower,
};

verus! {

/// How the steps of a path are parted.
#[derive(Clone, Copy, Debug, PartialEq, Eq, Structural)]
pub enum PathStyle {
    /// By slashes.
    Unix,
    /// By backslashes or slashes, behind a drive where there is one.
    Windows,
}

impl PathStyle {
    /// The separator that is written between two steps.
    pub open spec fn main_separator(self) -> char {
        match self {
            PathStyle::Unix => '/',
            PathStyle::Windows => '\\',
        }
    }

    pub open spec fn parts(self, character: char) -> bool {
        character == '/' || character == self.main_separator()
    }

    pub fn separator(self) -> (result: char)
        ensures
            result == self.main_separator(),
    {
        match self {
            PathStyle::Unix => '/',
            PathStyle::Windows => '\\',
        }
    }

    pub fn is_separator(self, character: char) -> (result: bool)
        ensures
            result == self.parts(character),
    {
        character == '/' || character == self.separator()
    }
}

/// What a step is.
#[derive(Clone, Copy, Debug, PartialEq, Eq, Structural)]
pub enum StepKind {
    /// The drive that a path is on.
    Drive,
    /// The root of the file system or of a drive.
    Root,
    /// The directory that a relative path starts from.
    Here,
    /// The directory above.
    Up,
    /// A name in a directory.
    Name,
}

impl StepKind {
    /// The place of a kind among the others.
    pub open spec fn place(self) -> int {
        match self {
            StepKind::Drive => 0,
            StepKind::Root => 1,
            StepKind::Here => 2,
            StepKind::Up => 3,
            StepKind::Name => 4,
        }
    }

    fn rank(self) -> (result: u8)
        ensures
            result == self.place(),
    {
        match self {
            StepKind::Drive => 0,
            StepKind::Root => 1,
            StepKind::Here => 2,
            StepKind::Up => 3,
            StepKind::Name => 4,
        }
    }
}

/// A step of a path, with the letter of a drive or the text of a name.
#[verifier::ext_equal]
pub struct StepView {
    pub kind: StepKind,
    pub text: Seq<char>,
}

/// A path that starts with a drive.
pub open spec fn has_drive(path: Seq<char>, style: PathStyle) -> bool {
    style == PathStyle::Windows && path.len() >= 2 && is_alphabetic(path[0]) && path[1] == ':'
}

/// A path behind its drive.
pub open spec fn behind_drive(path: Seq<char>, style: PathStyle) -> Seq<char> {
    if has_drive(path, style) {
        path.skip(2)
    } else {
        path
    }
}

/// A path, without its drive, that starts at the root.
pub open spec fn rooted(path: Seq<char>, style: PathStyle) -> bool {
    path.len() > 0 && style.parts(path[0])
}

/// The steps that stand between separators. An empty one is none, and neither is
/// a single dot, but at the start of a relative path.
pub open spec fn inner_steps(pieces: Seq<Seq<char>>, rooted: bool) -> Seq<StepView>
    decreases pieces.len(),
{
    if pieces.len() == 0 {
        seq![]
    } else {
        let before = inner_steps(pieces.drop_last(), rooted);
        let last = pieces.last();
        if last.len() == 0 {
            before
        } else if last == seq!['.'] {
            if pieces.len() == 1 && !rooted {
                before.push(StepView { kind: StepKind::Here, text: seq![] })
            } else {
                before
            }
        } else if last == seq!['.', '.'] {
            before.push(StepView { kind: StepKind::Up, text: seq![] })
        } else {
            before.push(StepView { kind: StepKind::Name, text: last })
        }
    }
}

/// The steps of a path. The letter of a drive stands for itself in either case. The
/// host and the share of a network path are the names that they are written as.
pub open spec fn steps(path: Seq<char>, style: PathStyle) -> Seq<StepView> {
    let rest = behind_drive(path, style);
    let drive = if has_drive(path, style) {
        seq![StepView { kind: StepKind::Drive, text: seq![ascii_lower(path[0])] }]
    } else {
        seq![]
    };
    let root = if rooted(rest, style) {
        seq![StepView { kind: StepKind::Root, text: seq![] }]
    } else {
        seq![]
    };
    drive + root + inner_steps(split(rest, style.main_separator(), '/'), rooted(rest, style))
}

/// Two texts that lead to the same place step by step.
pub open spec fn same_path(left: Seq<char>, right: Seq<char>, style: PathStyle) -> bool {
    steps(left, style) == steps(right, style)
}

/// The order of texts, character by character.
pub open spec fn text_before(left: Seq<char>, right: Seq<char>) -> bool
    decreases left.len(),
{
    if right.len() == 0 {
        false
    } else if left.len() == 0 {
        true
    } else if left[0] == right[0] {
        text_before(left.skip(1), right.skip(1))
    } else {
        left[0] < right[0]
    }
}

/// The order of steps: by their kind, then by their text.
pub open spec fn step_before(left: StepView, right: StepView) -> bool {
    left.kind.place() < right.kind.place() || (left.kind == right.kind && text_before(left.text, right.text))
}

/// The order of lists of steps, step by step.
pub open spec fn steps_before(left: Seq<StepView>, right: Seq<StepView>) -> bool
    decreases left.len(),
{
    if right.len() == 0 {
        false
    } else if left.len() == 0 {
        true
    } else if left[0] == right[0] {
        steps_before(left.skip(1), right.skip(1))
    } else {
        step_before(left[0], right[0])
    }
}

/// The order of paths: that of their steps.
pub open spec fn path_before(left: Seq<char>, right: Seq<char>, style: PathStyle) -> bool {
    steps_before(steps(left, style), steps(right, style))
}

proof fn lemma_texts_chain(one: Seq<char>, two: Seq<char>, three: Seq<char>)
    requires
        text_before(one, two),
        text_before(two, three),
    ensures
        text_before(one, three),
    decreases one.len(),
{
    if one.len() > 0 && one[0] == two[0] && two[0] == three[0] {
        lemma_texts_chain(one.skip(1), two.skip(1), three.skip(1));
    }
}

proof fn lemma_texts_are_ordered(left: Seq<char>, right: Seq<char>)
    ensures
        !text_before(left, left),
        left != right ==> text_before(left, right) || text_before(right, left),
        !(text_before(left, right) && text_before(right, left)),
    decreases left.len(),
{
    if left.len() > 0 {
        lemma_texts_are_ordered(left.skip(1), right.skip(1));
        lemma_texts_are_ordered(left.skip(1), left.skip(1));
        if right.len() > 0 && left[0] == right[0] && left.skip(1) == right.skip(1) {
            assert(left =~= seq![left[0]] + left.skip(1));
            assert(right =~= seq![right[0]] + right.skip(1));
        }
    } else if right.len() == 0 {
        assert(left =~= right);
    }
}

proof fn lemma_steps_chain(one: Seq<StepView>, two: Seq<StepView>, three: Seq<StepView>)
    requires
        steps_before(one, two),
        steps_before(two, three),
    ensures
        steps_before(one, three),
    decreases one.len(),
{
    if one.len() > 0 {
        if one[0] == two[0] && two[0] == three[0] {
            lemma_steps_chain(one.skip(1), two.skip(1), three.skip(1));
        } else if one[0] != two[0] && two[0] != three[0] {
            if one[0].kind == two[0].kind && two[0].kind == three[0].kind {
                lemma_texts_chain(one[0].text, two[0].text, three[0].text);
            }
            lemma_texts_are_ordered(one[0].text, two[0].text);
            lemma_texts_are_ordered(one[0].text, three[0].text);
        }
    }
}

proof fn lemma_steps_are_ordered(left: Seq<StepView>, right: Seq<StepView>)
    ensures
        !steps_before(left, left),
        left != right ==> steps_before(left, right) || steps_before(right, left),
        !(steps_before(left, right) && steps_before(right, left)),
    decreases left.len(),
{
    if left.len() > 0 {
        lemma_steps_are_ordered(left.skip(1), right.skip(1));
        lemma_steps_are_ordered(left.skip(1), left.skip(1));
        if right.len() > 0 {
            lemma_texts_are_ordered(left[0].text, right[0].text);
            if left[0] == right[0] && left.skip(1) == right.skip(1) {
                assert(left =~= seq![left[0]] + left.skip(1));
                assert(right =~= seq![right[0]] + right.skip(1));
            }
        }
    } else if right.len() == 0 {
        assert(left =~= right);
    }
}

/// A path before one that stands before a third stands before the third.
pub proof fn law_path_order_chains(one: Seq<char>, two: Seq<char>, three: Seq<char>, style: PathStyle)
    requires
        path_before(one, two, style),
        path_before(two, three, style),
    ensures
        path_before(one, three, style),
{
    lemma_steps_chain(steps(one, style), steps(two, style), steps(three, style));
}

/// Of two paths, either they are the same, or exactly one stands before the other.
pub proof fn law_paths_are_ordered(left: Seq<char>, right: Seq<char>, style: PathStyle)
    ensures
        same_path(left, right, style) ==> !path_before(left, right, style) && !path_before(right, left, style),
        !same_path(left, right, style) ==> path_before(left, right, style) || path_before(right, left, style),
        !(path_before(left, right, style) && path_before(right, left, style)),
{
    lemma_steps_are_ordered(steps(left, style), steps(right, style));
}

/// How two paths stand to each other.
#[derive(Clone, Copy, Debug, PartialEq, Eq, Structural)]
pub enum PathOrder {
    Before,
    Same,
    After,
}

fn text_order(left: &[char], right: &[char]) -> (result: PathOrder)
    ensures
        result == PathOrder::Before <==> text_before(left@, right@),
        result == PathOrder::Same <==> left@ == right@,
        result == PathOrder::After <==> text_before(right@, left@),
{
    let mut index: usize = 0;
    proof {
        assert(left@.skip(0) =~= left@);
        assert(right@.skip(0) =~= right@);
        lemma_texts_are_ordered(left@, right@);
    }
    while index < left.len() && index < right.len()
        invariant
            index <= left@.len(),
            index <= right@.len(),
            left@.take(index as int) == right@.take(index as int),
            text_before(left@, right@) == text_before(left@.skip(index as int), right@.skip(index as int)),
            text_before(right@, left@) == text_before(right@.skip(index as int), left@.skip(index as int)),
            !(text_before(left@, right@) && text_before(right@, left@)),
            left@ == right@ ==> !text_before(left@, right@) && !text_before(right@, left@),
        decreases left@.len() - index,
    {
        let one = left[index];
        let two = right[index];
        proof {
            assert(left@.skip(index as int).skip(1) =~= left@.skip(index + 1));
            assert(right@.skip(index as int).skip(1) =~= right@.skip(index + 1));
            assert(left@.skip(index as int)[0] == one);
            assert(right@.skip(index as int)[0] == two);
        }
        if one != two {
            assert(left@[index as int] != right@[index as int]);
            return if one < two {
                PathOrder::Before
            } else {
                PathOrder::After
            };
        }
        assert(left@.take(index + 1) =~= left@.take(index as int).push(one));
        assert(right@.take(index + 1) =~= right@.take(index as int).push(two));
        index = index + 1;
    }
    if index < right.len() {
        assert(left@.len() != right@.len());
        PathOrder::Before
    } else if index < left.len() {
        assert(left@.len() != right@.len());
        PathOrder::After
    } else {
        assert(left@.take(index as int) =~= left@);
        assert(right@.take(index as int) =~= right@);
        PathOrder::Same
    }
}

struct PathStep {
    kind: StepKind,
    text: Vec<char>,
}

impl View for PathStep {
    type V = StepView;

    closed spec fn view(&self) -> StepView {
        StepView { kind: self.kind, text: self.text@ }
    }
}

spec fn step_views(steps: Seq<PathStep>) -> Seq<StepView> {
    steps.map_values(|step: PathStep| step@)
}

fn add_step(steps: &mut Vec<PathStep>, kind: StepKind, text: Vec<char>)
    ensures
        step_views(final(steps)@) == step_views(old(steps)@).push(StepView { kind, text: text@ }),
{
    let ghost before = step_views(steps@);
    steps.push(PathStep { kind, text });
    assert(step_views(steps@) =~= before.push(StepView { kind, text: text@ }));
}

fn steps_of(path: &[char], style: PathStyle) -> (result: Vec<PathStep>)
    ensures
        step_views(result@) == steps(path@, style),
{
    let mut found: Vec<PathStep> = Vec::new();
    assert(step_views(found@) =~= seq![]);
    let windows = style == PathStyle::Windows;
    let driven = windows && path.len() >= 2 && ascii_alphabetic(path[0]) && path[1] == ':';
    let start: usize = if driven {
        2
    } else {
        0
    };
    if driven {
        let letter: Vec<char> = vec![to_ascii_lower(path[0])];
        assert(letter@ =~= seq![ascii_lower(path@[0])]);
        add_step(&mut found, StepKind::Drive, letter);
    }
    let rest = part_of(path, start, path.len());
    assert(rest@ =~= behind_drive(path@, style));
    let at_root = rest.len() > 0 && style.is_separator(rest[0]);
    if at_root {
        let none: Vec<char> = Vec::new();
        assert(none@ =~= seq![]);
        add_step(&mut found, StepKind::Root, none);
    }
    let ghost front = step_views(found@);
    let pieces = split_chars(&rest, style.separator(), '/');
    let ghost parts = rows(pieces@);
    assert(parts.take(0) =~= seq![]);
    assert(front + inner_steps(parts.take(0), at_root) =~= front);
    for index in 0..pieces.len()
        invariant
            parts == rows(pieces@),
            step_views(found@) == front + inner_steps(parts.take(index as int), at_root),
    {
        let ghost inner = inner_steps(parts.take(index as int), at_root);
        proof {
            assert(parts.take(index + 1).drop_last() =~= parts.take(index as int));
            assert(parts.take(index + 1).last() == pieces@[index as int]@);
        }
        let piece = &pieces[index];
        let one = piece.len() == 1 && piece[0] == '.';
        let two = piece.len() == 2 && piece[0] == '.' && piece[1] == '.';
        proof {
            assert(one ==> piece@ =~= seq!['.']);
            assert(two ==> piece@ =~= seq!['.', '.']);
        }
        let none: Vec<char> = Vec::new();
        assert(none@ =~= seq![]);
        if piece.len() == 0 {
        } else if one {
            if index == 0 && !at_root {
                add_step(&mut found, StepKind::Here, none);
                assert(step_views(found@) =~= front + inner.push(StepView { kind: StepKind::Here, text: seq![] }));
            }
        } else if two {
            add_step(&mut found, StepKind::Up, none);
            assert(step_views(found@) =~= front + inner.push(StepView { kind: StepKind::Up, text: seq![] }));
        } else {
            let name = part_of(piece, 0, piece.len());
            assert(name@ =~= piece@);
            add_step(&mut found, StepKind::Name, name);
            assert(step_views(found@) =~= front + inner.push(StepView { kind: StepKind::Name, text: piece@ }));
        }
    }
    assert(parts.take(parts.len() as int) =~= parts);
    assert(step_views(found@) =~= steps(path@, style));
    found
}

/// Compares two paths.
pub fn order_of(left: &[char], right: &[char], style: PathStyle) -> (result: PathOrder)
    ensures
        result == PathOrder::Before <==> path_before(left@, right@, style),
        result == PathOrder::Same <==> same_path(left@, right@, style),
        result == PathOrder::After <==> path_before(right@, left@, style),
{
    let left_steps = steps_of(left, style);
    let right_steps = steps_of(right, style);
    let ghost one = step_views(left_steps@);
    let ghost two = step_views(right_steps@);
    let mut index: usize = 0;
    proof {
        assert(one.skip(0) =~= one);
        assert(two.skip(0) =~= two);
        lemma_steps_are_ordered(one, two);
    }
    while index < left_steps.len() && index < right_steps.len()
        invariant
            one == step_views(left_steps@),
            two == step_views(right_steps@),
            index <= one.len(),
            index <= two.len(),
            one.take(index as int) == two.take(index as int),
            steps_before(one, two) == steps_before(one.skip(index as int), two.skip(index as int)),
            steps_before(two, one) == steps_before(two.skip(index as int), one.skip(index as int)),
            !(steps_before(one, two) && steps_before(two, one)),
            one == two ==> !steps_before(one, two) && !steps_before(two, one),
            one == steps(left@, style),
            two == steps(right@, style),
        decreases one.len() - index,
    {
        let own = &left_steps[index];
        let other = &right_steps[index];
        proof {
            assert(one.skip(index as int).skip(1) =~= one.skip(index + 1));
            assert(two.skip(index as int).skip(1) =~= two.skip(index + 1));
            assert(one.skip(index as int)[0] == own@);
            assert(two.skip(index as int)[0] == other@);
            assert(one[index as int] == own@);
            assert(two[index as int] == other@);
        }
        if own.kind.rank() < other.kind.rank() {
            return PathOrder::Before;
        }
        if other.kind.rank() < own.kind.rank() {
            return PathOrder::After;
        }
        assert(own.kind == other.kind);
        let texts = text_order(&own.text, &other.text);
        if texts != PathOrder::Same {
            return texts;
        }
        assert(own@ =~= other@);
        assert(one.take(index + 1) =~= one.take(index as int).push(own@));
        assert(two.take(index + 1) =~= two.take(index as int).push(other@));
        index = index + 1;
    }
    if index < right_steps.len() {
        assert(one.len() != two.len());
        PathOrder::Before
    } else if index < left_steps.len() {
        assert(one.len() != two.len());
        PathOrder::After
    } else {
        assert(one.take(index as int) =~= one);
        assert(two.take(index as int) =~= two);
        PathOrder::Same
    }
}

/// A name in a directory.
pub open spec fn joined_path(parent: Seq<char>, name: Seq<char>, style: PathStyle) -> Seq<char> {
    if parent.len() == 0 || style.parts(parent.last()) || (has_drive(parent, style) && parent.len() == 2) {
        parent + name
    } else {
        parent + seq![style.main_separator()] + name
    }
}

/// Puts a name into a directory.
pub fn join_path(parent: &[char], name: &[char], style: PathStyle) -> (result: String)
    ensures
        result@ == joined_path(parent@, name@, style),
{
    let mut characters: Vec<char> = Vec::new();
    characters.extend_from_slice(parent);
    assert(characters@ =~= parent@);
    let on_drive = style == PathStyle::Windows && parent.len() == 2 && ascii_alphabetic(parent[0]) && parent[1] == ':';
    if parent.len() > 0 && !style.is_separator(parent[parent.len() - 1]) && !on_drive {
        characters.push(style.separator());
    }
    let ghost front = characters@;
    characters.extend_from_slice(name);
    assert(characters@ =~= front + name@);
    assert(characters@ =~= joined_path(parent@, name@, style));
    string_of(&characters)
}

/// The paths stand in their order, none twice.
pub open spec fn in_path_order(paths: Seq<Seq<char>>, style: PathStyle) -> bool {
    forall|one: int, two: int|
        #![trigger paths[one], paths[two]]
        0 <= one < two < paths.len() ==> path_before(paths[one], paths[two], style)
}

/// One of the paths is the same as another path.
pub open spec fn path_known(paths: Seq<Seq<char>>, path: Seq<char>, style: PathStyle) -> bool {
    exists|index: int| 0 <= index < paths.len() && same_path(#[trigger] paths[index], path, style)
}

/// What stands before a path of an ordered list stands before those after it.
pub proof fn lemma_later_paths(paths: Seq<Seq<char>>, place: int, new: Seq<char>, style: PathStyle)
    requires
        in_path_order(paths, style),
        0 <= place < paths.len(),
        path_before(new, paths[place], style),
    ensures
        forall|later: int| place <= later < paths.len() ==> path_before(new, #[trigger] paths[later], style),
{
    assert forall|later: int| place <= later < paths.len() implies path_before(new, #[trigger] paths[later], style) by {
        if later > place {
            assert(path_before(paths[place], paths[later], style));
            law_path_order_chains(new, paths[place], paths[later], style);
        }
    }
}

/// What stands after a path of an ordered list stands after those before it.
pub proof fn lemma_earlier_paths(paths: Seq<Seq<char>>, place: int, new: Seq<char>, style: PathStyle)
    requires
        in_path_order(paths, style),
        0 <= place < paths.len(),
        path_before(paths[place], new, style),
    ensures
        forall|earlier: int| 0 <= earlier <= place ==> path_before(#[trigger] paths[earlier], new, style),
{
    assert forall|earlier: int| 0 <= earlier <= place implies path_before(#[trigger] paths[earlier], new, style) by {
        if earlier < place {
            assert(path_before(paths[earlier], paths[place], style));
            law_path_order_chains(paths[earlier], paths[place], new, style);
        }
    }
}

/// An ordered list stays ordered with a new path in its place.
pub proof fn lemma_inserted_in_order(paths: Seq<Seq<char>>, place: int, new: Seq<char>, style: PathStyle)
    requires
        in_path_order(paths, style),
        0 <= place <= paths.len(),
        forall|earlier: int| 0 <= earlier < place ==> path_before(#[trigger] paths[earlier], new, style),
        forall|later: int| place <= later < paths.len() ==> path_before(new, #[trigger] paths[later], style),
    ensures
        in_path_order(paths.insert(place, new), style),
        forall|other: Seq<char>| #[trigger]
            paths.insert(place, new).contains(other) <==> paths.contains(other) || other == new,
{
    let after = paths.insert(place, new);
    assert forall|one: int, two: int|
        #![trigger after[one], after[two]]
        0 <= one < two < after.len() implies path_before(after[one], after[two], style) by {
        let left = if one < place {
            one
        } else {
            one - 1
        };
        let right = if two < place {
            two
        } else {
            two - 1
        };
        if one != place {
            assert(after[one] == paths[left]);
        }
        if two != place {
            assert(after[two] == paths[right]);
        }
    }
    assert forall|other: Seq<char>| #[trigger] after.contains(other) <==> paths.contains(other) || other == new by {
        if paths.contains(other) {
            let at = choose|at: int| 0 <= at < paths.len() && paths[at] == other;
            if at < place {
                assert(after[at] == other);
            } else {
                assert(after[at + 1] == other);
            }
        }
        assert(after[place] == new);
        if after.contains(other) && other != new {
            let at = choose|at: int| 0 <= at < after.len() && after[at] == other;
            if at < place {
                assert(paths[at] == other);
            } else {
                assert(paths[at - 1] == other);
            }
        }
    }
}

} // verus!
