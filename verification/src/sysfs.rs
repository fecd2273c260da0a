//! The sysfs path resolver: from the path of a device node to the kernel
//! attribute file of that device.
//!
//! Nothing here touches the file system. A path is resolved by its text
//! alone, so that the same path always resolves to the same attribute path,
//! whether the file exists or not. That it does not exist shows when the file
//! is opened.

use vstd::prelude::*;
use vstd::std_specs::iter::IteratorSpec;

verus! {

/// The pieces of a path between its separators `/`, empty ones included. A
/// path with `n` separators has `n + 1` segments.
pub open spec fn segments(path: Seq<char>) -> Seq<Seq<char>>
    decreases path.len(),
{
    if path.len() == 0 {
        seq![Seq::<char>::empty()]
    } else {
        let before = segments(path.drop_last());
        if path.last() == '/' {
            before.push(Seq::<char>::empty())
        } else {
            before.drop_last().push(before.last().push(path.last()))
        }
    }
}

/// Whether a segment is a component of its path. An empty segment (between
/// two separators, or at either end) and the segment `.` are none.
pub open spec fn is_component(segment: Seq<char>) -> bool {
    segment.len() > 0 && segment != seq!['.']
}

/// The components among `segments`, in their order.
pub open spec fn components_among(segments: Seq<Seq<char>>) -> Seq<Seq<char>> {
    segments.filter(|segment: Seq<char>| is_component(segment))
}

/// The components of a path, in their order.
pub open spec fn components(path: Seq<char>) -> Seq<Seq<char>> {
    components_among(segments(path))
}

/// The base name of the device node that `path` names: its last component,
/// unless that is `..` or the path has no component.
pub open spec fn node_name_of(path: Seq<char>) -> Option<Seq<char>> {
    let components = components(path);
    if components.len() > 0 && components.last() != seq!['.', '.'] {
        Some(components.last())
    } else {
        None
    }
}

/// The directory of a device in sysfs: the base name of its node under the
/// class directory of input devices, then `device`.
pub open spec fn device_dir_of(path: Seq<char>) -> Option<Seq<char>> {
    match node_name_of(path) {
        Some(name) => Some("/sys/class/input/"@ + name + "/device"@),
        None => None,
    }
}

/// The attribute file that holds the inhibited state of a device: `inhibited`
/// in the device's directory in sysfs.
pub open spec fn inhibit_path_of(path: Seq<char>) -> Option<Seq<char>> {
    match device_dir_of(path) {
        Some(dir) => Some(dir + "/inhibited"@),
        None => None,
    }
}

/// Whether a segment holds nothing but dots.
spec fn dots_only(segment: Seq<char>) -> bool {
    forall|i: int| 0 <= i < segment.len() ==> segment[i] == '.'
}

/// What a scan has to know of the segments that lie before the one it is in:
/// where the last component among them stands in the path, if there is one,
/// and whether that component is `..`.
spec fn knows_last_component(
    path: Seq<char>,
    earlier: Seq<Seq<char>>,
    last: Option<(usize, usize)>,
    last_is_parent: bool,
) -> bool {
    match last {
        Some((from, to)) => {
            &&& from <= to <= path.len()
            &&& components_among(earlier).len() > 0
            &&& components_among(earlier).last() == path.subrange(from as int, to as int)
            &&& last_is_parent == (path.subrange(from as int, to as int) == seq!['.', '.'])
        },
        None => components_among(earlier).len() == 0,
    }
}

/// One more character adds a segment to a path or lengthens its last one.
proof fn lemma_segments_push(path: Seq<char>, c: char)
    ensures
        segments(path).len() > 0,
        segments(path.push(c)) == if c == '/' {
            segments(path).push(Seq::<char>::empty())
        } else {
            segments(path).drop_last().push(segments(path).last().push(c))
        },
    decreases path.len(),
{
    if path.len() > 0 {
        lemma_segments_push(path.drop_last(), path.last());
    }
    assert(path.push(c).drop_last() =~= path);
}

/// The components among some segments are those among all but the last, and
/// the last if it is one.
proof fn lemma_components_push(earlier: Seq<Seq<char>>, segment: Seq<char>)
    ensures
        components_among(earlier.push(segment)) == if is_component(segment) {
            components_among(earlier).push(segment)
        } else {
            components_among(earlier)
        },
{
    reveal(Seq::filter);
    assert(earlier.push(segment).drop_last() =~= earlier);
}

/// Tells `.` and `..` from other segments by their length, given that they
/// hold nothing but dots.
proof fn lemma_dots(segment: Seq<char>)
    ensures
        segment == seq!['.'] <==> segment.len() == 1 && dots_only(segment),
        segment == seq!['.', '.'] <==> segment.len() == 2 && dots_only(segment),
{
    if segment.len() == 1 && dots_only(segment) {
        assert(segment =~= seq!['.']);
    }
    if segment.len() == 2 && dots_only(segment) {
        assert(segment =~= seq!['.', '.']);
    }
}

/// The base name of the device node that `path` names: the last component of
/// the path. Separators at the end, repeated separators and `.` segments do
/// not count. A path without a component, or one that ends in `..`, names no
/// node.
pub fn node_name(path: &str) -> (name: Option<&str>)
    ensures
        match name {
            Some(name) => node_name_of(path@) == Some(name@),
            None => node_name_of(path@) is None,
        },
{
    // One pass over the characters. The segment that is being read begins at
    // `start`; `last` is where the last component before that segment lies.
    let length: usize = path.unicode_len();
    let mut chars = path.chars();
    let mut position: usize = 0;
    let mut start: usize = 0;
    let mut only_dots = true;
    let mut last: Option<(usize, usize)> = None;
    let mut last_is_parent = false;
    proof {
        reveal(Seq::filter);
    }
    loop
        invariant
            length == path@.len(),
            start <= position <= length,
            chars.remaining() == path@.skip(position as int),
            segments(path@.take(position as int)).len() > 0,
            segments(path@.take(position as int)).last() == path@.subrange(
                start as int,
                position as int,
            ),
            only_dots == dots_only(path@.subrange(start as int, position as int)),
            knows_last_component(
                path@,
                segments(path@.take(position as int)).drop_last(),
                last,
                last_is_parent,
            ),
        ensures
            position == length,
            start <= position,
            segments(path@).len() > 0,
            segments(path@).last() == path@.subrange(start as int, position as int),
            only_dots == dots_only(path@.subrange(start as int, position as int)),
            knows_last_component(path@, segments(path@).drop_last(), last, last_is_parent),
        decreases length - position,
    {
        let ghost read = path@.take(position as int);
        let ghost current = path@.subrange(start as int, position as int);
        match chars.next() {
            None => {
                proof {
                    assert(path@.take(position as int) =~= path@);
                }
                break ;
            },
            Some(c) => {
                proof {
                    assert(c == path@[position as int]);
                    assert(path@.take(position as int + 1) =~= read.push(c));
                    lemma_segments_push(read, c);
                }
                if c == '/' {
                    // The segment ends here: it becomes the last component if
                    // it is one.
                    proof {
                        lemma_dots(current);
                        lemma_components_push(segments(read).drop_last(), current);
                        assert(segments(read).drop_last().push(current) =~= segments(read));
                        assert(segments(read).push(Seq::<char>::empty()).drop_last() =~= segments(
                            read,
                        ));
                    }
                    let size: usize = position - start;
                    if size > 0 && !(only_dots && size == 1) {
                        last = Some((start, position));
                        last_is_parent = only_dots && size == 2;
                    }
                    start = position + 1;
                    only_dots = true;
                } else {
                    proof {
                        let longer = current.push(c);
                        assert(path@.subrange(start as int, position as int + 1) =~= longer);
                        assert(segments(read).drop_last().push(longer).drop_last() =~= segments(
                            read,
                        ).drop_last());
                        if !dots_only(current) {
                            let i = choose|i: int| 0 <= i < current.len() && current[i] != '.';
                            assert(longer[i] != '.');
                        } else if c != '.' {
                            assert(longer[current.len() as int] != '.');
                        }
                    }
                    only_dots = only_dots && c == '.';
                }
                position = position + 1;
            },
        }
    }
    let ghost current = path@.subrange(start as int, position as int);
    proof {
        lemma_dots(current);
        lemma_components_push(segments(path@).drop_last(), current);
        assert(segments(path@).drop_last().push(current) =~= segments(path@));
    }
    // The path ends in the segment that was being read, or else in the last
    // component before it.
    let size: usize = position - start;
    if size > 0 && !(only_dots && size == 1) {
        if only_dots && size == 2 {
            None
        } else {
            Some(path.substring_char(start, position))
        }
    } else {
        match last {
            Some((from, to)) => {
                if last_is_parent {
                    None
                } else {
                    Some(path.substring_char(from, to))
                }
            },
            None => None,
        }
    }
}

/// The directory of the device in sysfs whose node `path` names:
/// `/sys/class/input/<node name>/device`. There is none where the path names
/// no node.
pub fn device_dir(path: &str) -> (dir: Option<String>)
    ensures
        match dir {
            Some(dir) => device_dir_of(path@) == Some(dir@),
            None => device_dir_of(path@) is None,
        },
{
    match node_name(path) {
        Some(name) => {
            let mut dir = String::from_str("/sys/class/input/");
            dir.append(name);
            dir.append("/device");
            Some(dir)
        },
        None => None,
    }
}

/// The attribute file of the device whose node `path` names:
/// `/sys/class/input/<node name>/device/inhibited`. There is none where the
/// path names no node. Whether the file exists is not looked at.
pub fn inhibit_path(path: &str) -> (attribute: Option<String>)
    ensures
        match attribute {
            Some(attribute) => inhibit_path_of(path@) == Some(attribute@),
            None => inhibit_path_of(path@) is None,
        },
{
    match device_dir(path) {
        Some(dir) => {
            let mut attribute = dir;
            attribute.append("/inhibited");
            Some(attribute)
        },
        None => None,
    }
}

/// Resolution goes by the text of the path alone: two paths that read the
/// same resolve to the same node name, device directory and attribute path.
pub proof fn lemma_resolution_is_deterministic(first: &str, second: &str)
    requires
        first@ == second@,
    ensures
        node_name_of(first@) == node_name_of(second@),
        device_dir_of(first@) == device_dir_of(second@),
        inhibit_path_of(first@) == inhibit_path_of(second@),
{
}

} // verus!
