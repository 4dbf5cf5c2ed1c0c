//! Windows paths as the Linux side sees them.

use vstd::prelude::*;

use crate::text::{
    ascii_alphabetic, ascii_lower, chars_of, is_alphabetic, lowered, part_of, push_text, rows, same, split,
    split_chars, string_of, to_ascii_lower, to_lowered,
};

verus! {

/// Why a path has no counterpart.
#[derive(Clone, Copy, Debug, PartialEq, Eq, Structural)]
pub enum WslPathError {
    InvalidRoot,
    Traversal,
}

impl WslPathError {
    pub open spec fn message_text(self) -> Seq<char> {
        match self {
            WslPathError::InvalidRoot => "path must be an absolute Windows drive path"@,
            WslPathError::Traversal => "path traversal is not allowed"@,
        }
    }

    pub fn to_string(&self) -> (result: String)
        ensures
            result@ == self.message_text(),
    {
        match self {
            WslPathError::InvalidRoot => "path must be an absolute Windows drive path".to_owned(),
            WslPathError::Traversal => "path traversal is not allowed".to_owned(),
        }
    }
}

/// A drive letter, a colon and a separator.
pub open spec fn drive_root(path: Seq<char>) -> bool {
    path.len() >= 3 && is_alphabetic(path[0]) && path[1] == ':' && (path[2] == '\\' || path[2] == '/')
}

/// The part of a name before its first dot.
pub open spec fn stem(name: Seq<char>) -> Seq<char> {
    split(name, '.', '.')[0]
}

/// A device of DOS, in lower case.
pub open spec fn device_name(name: Seq<char>) -> bool {
    ||| name == seq!['c', 'o', 'n']
    ||| name == seq!['p', 'r', 'n']
    ||| name == seq!['a', 'u', 'x']
    ||| name == seq!['n', 'u', 'l']
    ||| name.len() == 4 && (name.take(3) == seq!['c', 'o', 'm'] || name.take(3) == seq!['l', 'p', 't']) && '1'
        <= name[3] <= '9'
}

/// A component that no file of Windows can have: it names a stream or a device, or
/// ends in a dot or a space.
pub open spec fn refused_component(name: Seq<char>) -> bool {
    name.len() > 0 && (name.contains(':') || name.last() == '.' || name.last() == ' ' || device_name(
        lowered(stem(name)),
    ))
}

/// The components of a path after its root.
pub open spec fn components(path: Seq<char>) -> Seq<Seq<char>> {
    split(path.skip(3), '\\', '/')
}

pub open spec fn climbs(parts: Seq<Seq<char>>) -> bool {
    parts.contains(seq!['.', '.'])
}

pub open spec fn any_refused(parts: Seq<Seq<char>>) -> bool {
    exists|index: int| 0 <= index < parts.len() && refused_component(#[trigger] parts[index])
}

/// The components, each behind a slash; empty ones are left out.
pub open spec fn slashed(parts: Seq<Seq<char>>) -> Seq<char>
    decreases parts.len(),
{
    if parts.len() == 0 {
        Seq::empty()
    } else if parts.last().len() == 0 {
        slashed(parts.drop_last())
    } else {
        slashed(parts.drop_last()) + seq!['/'] + parts.last()
    }
}

/// Where the Linux side finds a path.
pub open spec fn mounted(path: Seq<char>) -> Seq<char> {
    "/mnt/"@ + seq![ascii_lower(path[0])] + slashed(components(path))
}

fn is_device_name(name: &[char]) -> (result: bool)
    ensures
        result == device_name(name@),
{
    if name.len() == 3 {
        let con = name[0] == 'c' && name[1] == 'o' && name[2] == 'n';
        let prn = name[0] == 'p' && name[1] == 'r' && name[2] == 'n';
        let aux = name[0] == 'a' && name[1] == 'u' && name[2] == 'x';
        let nul = name[0] == 'n' && name[1] == 'u' && name[2] == 'l';
        proof {
            assert(con ==> name@ =~= seq!['c', 'o', 'n']);
            assert(prn ==> name@ =~= seq!['p', 'r', 'n']);
            assert(aux ==> name@ =~= seq!['a', 'u', 'x']);
            assert(nul ==> name@ =~= seq!['n', 'u', 'l']);
            assert(!con ==> name@ != seq!['c', 'o', 'n']);
            assert(!prn ==> name@ != seq!['p', 'r', 'n']);
            assert(!aux ==> name@ != seq!['a', 'u', 'x']);
            assert(!nul ==> name@ != seq!['n', 'u', 'l']);
        }
        return con || prn || aux || nul;
    }
    if name.len() != 4 {
        return false;
    }
    let com = name[0] == 'c' && name[1] == 'o' && name[2] == 'm';
    let lpt = name[0] == 'l' && name[1] == 'p' && name[2] == 't';
    proof {
        assert(com ==> name@.take(3) =~= seq!['c', 'o', 'm']);
        assert(lpt ==> name@.take(3) =~= seq!['l', 'p', 't']);
        if name@.take(3) == seq!['c', 'o', 'm'] || name@.take(3) == seq!['l', 'p', 't'] {
            assert(name@.take(3)[0] == name@[0] && name@.take(3)[1] == name@[1] && name@.take(3)[2] == name@[2]);
        }
    }
    (com || lpt) && '1' <= name[3] && name[3] <= '9'
}

proof fn lemma_split_is_never_empty(text: Seq<char>, first: char, second: char)
    ensures
        split(text, first, second).len() > 0,
    decreases text.len(),
{
    if text.len() > 0 {
        lemma_split_is_never_empty(text.drop_last(), first, second);
    }
}

/// Whether a component can stand in no path of Windows.
pub fn invalid_windows_component(component: &[char]) -> (result: bool)
    ensures
        result == refused_component(component@),
{
    if component.len() == 0 {
        return false;
    }
    for index in 0..component.len()
        invariant
            forall|earlier: int| 0 <= earlier < index ==> #[trigger] component@[earlier] != ':',
    {
        if component[index] == ':' {
            assert(component@.contains(':'));
            return true;
        }
    }
    let last = component[component.len() - 1];
    if last == '.' || last == ' ' {
        return true;
    }
    let pieces = split_chars(component, '.', '.');
    proof {
        lemma_split_is_never_empty(component@, '.', '.');
        assert(rows(pieces@)[0] == pieces@[0]@);
    }
    is_device_name(&to_lowered(&pieces[0]))
}

/// The Linux path of an absolute Windows path on a drive.
pub fn windows_to_wsl_path(value: &str) -> (result: Result<String, WslPathError>)
    ensures
        match result {
            Ok(path) => drive_root(value@) && !climbs(components(value@)) && !any_refused(components(value@))
                && path@ == mounted(value@),
            Err(WslPathError::Traversal) => drive_root(value@) && climbs(components(value@)),
            Err(WslPathError::InvalidRoot) => !drive_root(value@) || (!climbs(components(value@)) && any_refused(
                components(value@),
            )),
        },
{
    let text = chars_of(value);
    if text.len() < 3 || !ascii_alphabetic(text[0]) || text[1] != ':' || !(text[2] == '\\' || text[2] == '/') {
        return Err(WslPathError::InvalidRoot);
    }
    let rest = part_of(&text, 3, text.len());
    assert(rest@ =~= value@.skip(3));
    let parts = split_chars(&rest, '\\', '/');
    let ghost names = components(value@);
    let up: [char; 2] = ['.', '.'];
    assert(up@ =~= seq!['.', '.']);
    for index in 0..parts.len()
        invariant
            rows(parts@) == names,
            up@ == seq!['.', '.'],
            forall|earlier: int| 0 <= earlier < index ==> #[trigger] names[earlier] != seq!['.', '.'],
            names == components(value@),
            drive_root(value@),
    {
        assert(names[index as int] == parts@[index as int]@);
        if same(&parts[index], &up) {
            assert(names.contains(seq!['.', '.']));
            return Err(WslPathError::Traversal);
        }
    }
    for index in 0..parts.len()
        invariant
            rows(parts@) == names,
            forall|earlier: int| 0 <= earlier < index ==> !refused_component(#[trigger] names[earlier]),
            names == components(value@),
            !climbs(names),
    {
        assert(names[index as int] == parts@[index as int]@);
        if invalid_windows_component(&parts[index]) {
            return Err(WslPathError::InvalidRoot);
        }
    }
    let mut path = "/mnt/".to_owned();
    path.push(to_ascii_lower(text[0]));
    let ghost prefix = path@;
    assert(prefix =~= "/mnt/"@ + seq![ascii_lower(value@[0])]);
    assert(slashed(names.take(0)) =~= Seq::empty());
    for index in 0..parts.len()
        invariant
            rows(parts@) == names,
            path@ == prefix + slashed(names.take(index as int)),
    {
        proof {
            assert(names.take(index + 1).drop_last() =~= names.take(index as int));
            assert(names.take(index + 1).last() == names[index as int]);
            assert(names[index as int] == parts@[index as int]@);
        }
        if parts[index].len() > 0 {
            let ghost before = path@;
            path.push('/');
            push_text(&mut path, string_of(&parts[index]).as_str());
            assert(path@ =~= prefix + (slashed(names.take(index as int)) + seq!['/'] + names[index as int]));
        }
    }
    assert(names.take(names.len() as int) =~= names);
    Ok(path)
}

/// A path that is accepted never leads out of its drive: no component climbs.
pub proof fn law_accepted_paths_never_climb(path: Seq<char>, index: int)
    requires
        drive_root(path),
        !climbs(components(path)),
        0 <= index < components(path).len(),
    ensures
        components(path)[index] != seq!['.', '.'],
{
}

} // verus!
