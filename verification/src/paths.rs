//! File paths as slash-separated text: components, names, joining and
//! stripping of prefixes.
//!
//! Two paths are the same when their components are the same: repeated
//! slashes, a trailing slash and inner `.` components make no difference.
//!
//! Machines write paths in ways of their own, with other separators and with
//! prefixes such as a drive. [`text_of_parts`] makes the text out of the parts
//! that the machine takes a path apart into.

use crate::order::{
    order_chars, text_less, text_less_irreflexive, text_less_total, text_less_transitive, Order,
};
use crate::text::{from_chars, slice_of, to_chars};
use vstd::prelude::*;

verus! {

/// One component of a path.
#[derive(Debug, Clone, PartialEq, Eq)]
pub enum Component {
    /// The leading slash of an absolute path.
    RootDir,
    /// A leading `.` of a relative path.
    CurDir,
    /// A `..`.
    ParentDir,
    /// A name.
    Normal(Vec<char>),
}

/// A component with its name as a character sequence.
pub enum ComponentView {
    RootDir,
    CurDir,
    ParentDir,
    Normal(Seq<char>),
}

impl View for Component {
    type V = ComponentView;

    open spec fn view(&self) -> ComponentView {
        match self {
            Component::RootDir => ComponentView::RootDir,
            Component::CurDir => ComponentView::CurDir,
            Component::ParentDir => ComponentView::ParentDir,
            Component::Normal(name) => ComponentView::Normal(name@),
        }
    }
}

/// A list of components by their views.
pub open spec fn component_views(components: Seq<Component>) -> Seq<ComponentView> {
    components.map_values(|c: Component| c@)
}

/// The parts of `path` between slashes, empty ones too.
pub open spec fn slash_parts(path: Seq<char>) -> Seq<Seq<char>>
    decreases path.len(),
{
    if path.len() == 0 {
        seq![Seq::empty()]
    } else {
        let before = slash_parts(path.drop_last());
        if path.last() == '/' {
            before.push(Seq::empty())
        } else {
            before.drop_last().push(before.last().push(path.last()))
        }
    }
}

/// The components that one part stands for: none for an empty part or a `.`
/// that does not lead the path.
pub open spec fn part_components(part: Seq<char>, leads: bool) -> Seq<ComponentView> {
    if part.len() == 0 {
        Seq::empty()
    } else if part == seq!['.'] {
        if leads {
            seq![ComponentView::CurDir]
        } else {
            Seq::empty()
        }
    } else if part == seq!['.', '.'] {
        seq![ComponentView::ParentDir]
    } else {
        seq![ComponentView::Normal(part)]
    }
}

/// The components that the parts of a path stand for.
pub open spec fn parts_components(parts: Seq<Seq<char>>) -> Seq<ComponentView>
    decreases parts.len(),
{
    if parts.len() == 0 {
        Seq::empty()
    } else {
        parts_components(parts.drop_last()) + part_components(parts.last(), parts.len() == 1)
    }
}

/// The path starts with a slash.
pub open spec fn is_absolute_spec(path: Seq<char>) -> bool {
    path.len() > 0 && path[0] == '/'
}

/// The root component of an absolute path.
pub open spec fn root_components(path: Seq<char>) -> Seq<ComponentView> {
    if is_absolute_spec(path) {
        seq![ComponentView::RootDir]
    } else {
        Seq::empty()
    }
}

/// The components of `path`.
pub open spec fn components_spec(path: Seq<char>) -> Seq<ComponentView> {
    root_components(path) + parts_components(slash_parts(path))
}

proof fn slash_parts_nonempty(path: Seq<char>)
    ensures
        slash_parts(path).len() >= 1,
    decreases path.len(),
{
    if path.len() > 0 {
        slash_parts_nonempty(path.drop_last());
    }
}

/// Appends the components of one part.
fn push_part(out: &mut Vec<Component>, part: Vec<char>, leads: bool)
    ensures
        component_views(final(out)@) == component_views(old(out)@) + part_components(part@, leads),
{
    let ghost before = component_views(out@);
    if part.len() == 0 {
        proof {
            assert(before + part_components(part@, leads) =~= before);
        }
    } else if part.len() == 1 && part[0] == '.' {
        proof {
            assert(part@ =~= seq!['.']);
        }
        if leads {
            out.push(Component::CurDir);
        }
        proof {
            assert(component_views(out@) =~= before + part_components(part@, leads));
        }
    } else if part.len() == 2 && part[0] == '.' && part[1] == '.' {
        proof {
            assert(part@ =~= seq!['.', '.']);
        }
        out.push(Component::ParentDir);
        proof {
            assert(component_views(out@) =~= before + part_components(part@, leads));
        }
    } else {
        proof {
            assert(part@ != seq!['.']) by {
                if part@ == seq!['.'] {
                    assert(part@[0] == '.');
                }
            }
            assert(part@ != seq!['.', '.']) by {
                if part@ == seq!['.', '.'] {
                    assert(part@[0] == '.' && part@[1] == '.');
                }
            }
        }
        out.push(Component::Normal(part));
        proof {
            assert(component_views(out@) =~= before + part_components(part@, leads));
        }
    }
}

/// The components of `path`.
pub fn components(path: &str) -> (found: Vec<Component>)
    ensures
        component_views(found@) == components_spec(path@),
{
    let chars: Vec<char> = to_chars(path);
    let mut found: Vec<Component> = Vec::new();
    if chars.len() > 0 && chars[0] == '/' {
        found.push(Component::RootDir);
    }
    let ghost root = component_views(found@);
    proof {
        assert(root =~= root_components(path@));
    }
    let mut part: Vec<char> = Vec::new();
    let mut leads: bool = true;
    let ghost mut closed: Seq<Seq<char>> = Seq::empty();
    proof {
        assert(closed.push(part@) =~= slash_parts(path@.take(0)));
        assert(component_views(found@) =~= root + parts_components(closed));
    }
    for i in 0..chars.len()
        invariant
            chars@ == path@,
            closed.push(part@) == slash_parts(path@.take(i as int)),
            leads == (closed.len() == 0),
            component_views(found@) == root + parts_components(closed),
    {
        let ghost seen = path@.take(i as int);
        let ghost next = path@.take(i as int + 1);
        let ghost open = part@;
        proof {
            assert(next.drop_last() =~= seen);
            assert(next.last() == chars@[i as int]);
            assert(closed.push(open).drop_last() =~= closed);
        }
        if chars[i] == '/' {
            push_part(&mut found, part, leads);
            part = Vec::new();
            leads = false;
            proof {
                let old_closed = closed;
                closed = closed.push(open);
                assert(closed.drop_last() =~= old_closed);
                assert(part@ =~= Seq::<char>::empty());
                assert(component_views(found@) =~= root + parts_components(closed));
            }
        } else {
            part.push(chars[i]);
        }
    }
    let ghost last = part@;
    push_part(&mut found, part, leads);
    proof {
        assert(path@.take(path@.len() as int) =~= path@);
        assert(closed.push(last).drop_last() =~= closed);
        assert(component_views(found@) =~= root + parts_components(slash_parts(path@)));
    }
    found
}

/// The name that a path ends in: its last component, where that is a name.
pub open spec fn file_name_spec(path: Seq<char>) -> Option<Seq<char>> {
    let found = components_spec(path);
    if found.len() == 0 {
        None
    } else {
        match found.last() {
            ComponentView::Normal(name) => Some(name),
            _ => None,
        }
    }
}

/// An optional text by its view.
pub open spec fn chars_view(text: Option<Vec<char>>) -> Option<Seq<char>> {
    match text {
        Some(t) => Some(t@),
        None => None,
    }
}

/// The name that a path ends in.
pub fn file_name(path: &str) -> (name: Option<Vec<char>>)
    ensures
        chars_view(name) == file_name_spec(path@),
{
    let mut found: Vec<Component> = components(path);
    proof {
        assert(found@.len() == components_spec(path@).len());
        if found@.len() > 0 {
            assert(components_spec(path@).last() == component_views(found@).last());
            assert(component_views(found@).last() == found@.last()@);
        }
    }
    match found.pop() {
        Some(Component::Normal(name)) => Some(name),
        _ => None,
    }
}

/// The index of the last dot of a name, if it has one.
pub open spec fn last_dot(name: Seq<char>) -> Option<int>
    decreases name.len(),
{
    if name.len() == 0 {
        None
    } else if name.last() == '.' {
        Some(name.len() - 1)
    } else {
        last_dot(name.drop_last())
    }
}

/// What follows the last dot of a name; nothing where the name has no dot or
/// only one that it starts with.
pub open spec fn name_extension(name: Seq<char>) -> Option<Seq<char>> {
    match last_dot(name) {
        Some(dot) => if dot > 0 {
            Some(name.skip(dot + 1))
        } else {
            None
        },
        None => None,
    }
}

/// The extension of the name that a path ends in.
pub open spec fn extension_spec(path: Seq<char>) -> Option<Seq<char>> {
    match file_name_spec(path) {
        Some(name) => name_extension(name),
        None => None,
    }
}

/// The extension of the name that a path ends in.
pub fn extension(path: &str) -> (found: Option<Vec<char>>)
    ensures
        chars_view(found) == extension_spec(path@),
{
    let name: Vec<char> = match file_name(path) {
        Some(name) => name,
        None => {
            return None;
        },
    };
    let mut end: usize = name.len();
    proof {
        assert(name@.take(end as int) =~= name@);
    }
    while end > 0 && name[end - 1] != '.'
        invariant
            end <= name@.len(),
            last_dot(name@) == last_dot(name@.take(end as int)),
        decreases end,
    {
        proof {
            assert(name@.take(end as int).drop_last() =~= name@.take(end as int - 1));
        }
        end = end - 1;
    }
    if end <= 1 {
        return None;
    }
    proof {
        assert(name@.subrange(end as int, name@.len() as int) =~= name@.skip(end as int));
    }
    Some(slice_of(name.as_slice(), end, name.len()))
}

/// `rel` taken from `base`: `rel` itself if it is absolute, else the two with
/// one slash between where `base` does not end in one.
pub open spec fn join_spec(base: Seq<char>, rel: Seq<char>) -> Seq<char> {
    if is_absolute_spec(rel) {
        rel
    } else if base.len() == 0 || base.last() == '/' {
        base + rel
    } else {
        base + seq!['/'] + rel
    }
}

/// `rel` taken from `base`.
pub fn join(base: &str, rel: &str) -> (path: String)
    ensures
        path@ == join_spec(base@, rel@),
{
    let mut chars: Vec<char> = to_chars(base);
    let mut tail: Vec<char> = to_chars(rel);
    if tail.len() > 0 && tail[0] == '/' {
        return from_chars(tail.as_slice());
    }
    if chars.len() > 0 && chars[chars.len() - 1] != '/' {
        chars.push('/');
        proof {
            assert(chars@ =~= base@ + seq!['/']);
        }
    }
    chars.append(&mut tail);
    from_chars(chars.as_slice())
}

/// The text of one component.
pub open spec fn component_text(c: ComponentView) -> Seq<char> {
    match c {
        ComponentView::RootDir => seq!['/'],
        ComponentView::CurDir => seq!['.'],
        ComponentView::ParentDir => seq!['.', '.'],
        ComponentView::Normal(name) => name,
    }
}

/// The path that is made of `components`, each taken from those before it.
pub open spec fn path_text(components: Seq<ComponentView>) -> Seq<char>
    decreases components.len(),
{
    if components.len() == 0 {
        Seq::empty()
    } else {
        join_spec(path_text(components.drop_last()), component_text(components.last()))
    }
}

/// The path that leads from `root` to `path`, where `root` is a prefix of it
/// component by component.
pub open spec fn relative_to_spec(root: Seq<char>, path: Seq<char>) -> Option<Seq<char>> {
    let from = components_spec(root);
    let to = components_spec(path);
    if from.is_prefix_of(to) {
        Some(path_text(to.skip(from.len() as int)))
    } else {
        None
    }
}

/// Whether two components are the same.
pub fn same_component(a: &Component, b: &Component) -> (same: bool)
    ensures
        same == (a@ == b@),
{
    match (a, b) {
        (Component::RootDir, Component::RootDir) => true,
        (Component::CurDir, Component::CurDir) => true,
        (Component::ParentDir, Component::ParentDir) => true,
        (Component::Normal(x), Component::Normal(y)) => match order_chars(
            x.as_slice(),
            y.as_slice(),
        ) {
            Order::Equal => true,
            _ => false,
        },
        _ => false,
    }
}

/// The text of one component.
fn text_of_component(c: &Component) -> (text: String)
    ensures
        text@ == component_text(c@),
{
    match c {
        Component::RootDir => {
            let mut text: String = String::new();
            text.push('/');
            proof {
                assert(text@ =~= seq!['/']);
            }
            text
        },
        Component::CurDir => {
            let mut text: String = String::new();
            text.push('.');
            proof {
                assert(text@ =~= seq!['.']);
            }
            text
        },
        Component::ParentDir => {
            let mut text: String = String::new();
            text.push('.');
            text.push('.');
            proof {
                assert(text@ =~= seq!['.', '.']);
            }
            text
        },
        Component::Normal(name) => from_chars(name.as_slice()),
    }
}

/// An optional text by its view.
pub open spec fn text_view(text: Option<String>) -> Option<Seq<char>> {
    match text {
        Some(t) => Some(t@),
        None => None,
    }
}

/// The path that leads from `root` to `path`.
pub fn relative_to(root: &str, path: &str) -> (rel: Option<String>)
    ensures
        text_view(rel) == relative_to_spec(root@, path@),
{
    let from: Vec<Component> = components(root);
    let to: Vec<Component> = components(path);
    let ghost from_views = component_views(from@);
    let ghost to_views = component_views(to@);
    if from.len() > to.len() {
        return None;
    }
    for i in 0..from.len()
        invariant
            from.len() <= to.len(),
            from_views == component_views(from@),
            to_views == component_views(to@),
            from_views == components_spec(root@),
            to_views == components_spec(path@),
            forall|j: int| 0 <= j < i ==> from_views[j] == to_views[j],
    {
        if !same_component(&from[i], &to[i]) {
            proof {
                assert(from_views[i as int] != to_views[i as int]);
            }
            return None;
        }
        proof {
            assert(from_views[i as int] == to_views[i as int]);
        }
    }
    let mut text: String = String::new();
    let ghost left = to_views.skip(from_views.len() as int);
    proof {
        assert(from_views.is_prefix_of(to_views));
        assert(left.take(0) =~= Seq::empty());
        assert(text@ == path_text(left.take(0)));
    }
    for i in from.len()..to.len()
        invariant
            from.len() <= to.len(),
            from@.len() == from_views.len(),
            to_views == component_views(to@),
            left == to_views.skip(from_views.len() as int),
            text@ == path_text(left.take(i - from.len())),
    {
        let ghost k: int = i - from.len();
        text = join(text.as_str(), text_of_component(&to[i]).as_str());
        proof {
            assert(left.take(k + 1).drop_last() =~= left.take(k));
            assert(left.take(k + 1).last() == to_views[i as int]);
        }
    }
    proof {
        assert(left.take(left.len() as int) =~= left);
    }
    Some(text)
}

/// Whether two paths have the same components.
pub open spec fn same_path_spec(a: Seq<char>, b: Seq<char>) -> bool {
    components_spec(a) == components_spec(b)
}

/// Rank of a component's kind.
pub open spec fn component_rank(c: ComponentView) -> int {
    match c {
        ComponentView::RootDir => 0,
        ComponentView::CurDir => 1,
        ComponentView::ParentDir => 2,
        ComponentView::Normal(_) => 3,
    }
}

/// Kinds in the order root, `.`, `..`, name; names in dictionary order.
pub open spec fn component_less(a: ComponentView, b: ComponentView) -> bool {
    match (a, b) {
        (ComponentView::Normal(x), ComponentView::Normal(y)) => text_less(x, y),
        _ => component_rank(a) < component_rank(b),
    }
}

/// Dictionary order on lists of components.
pub open spec fn components_less(a: Seq<ComponentView>, b: Seq<ComponentView>) -> bool
    decreases b.len(),
{
    if b.len() == 0 {
        false
    } else if a.len() == 0 {
        true
    } else if a[0] == b[0] {
        components_less(a.skip(1), b.skip(1))
    } else {
        component_less(a[0], b[0])
    }
}

/// `a` comes before `b`: the order of paths by their components.
pub open spec fn path_less(a: Seq<char>, b: Seq<char>) -> bool {
    components_less(components_spec(a), components_spec(b))
}

/// The place of `a` against `b` in the order of paths.
pub open spec fn path_order_spec(a: Seq<char>, b: Seq<char>) -> Order {
    if same_path_spec(a, b) {
        Order::Equal
    } else if path_less(a, b) {
        Order::Less
    } else {
        Order::Greater
    }
}

/// No list of components comes before itself.
pub proof fn components_less_irreflexive(a: Seq<ComponentView>)
    ensures
        !components_less(a, a),
    decreases a.len(),
{
    if a.len() > 0 {
        components_less_irreflexive(a.skip(1));
    }
}

/// Of two different lists of components one comes first.
pub proof fn components_less_total(a: Seq<ComponentView>, b: Seq<ComponentView>)
    requires
        a != b,
    ensures
        components_less(a, b) != components_less(b, a),
    decreases a.len(),
{
    if a.len() > 0 && b.len() > 0 {
        if a[0] == b[0] {
            if a.skip(1) == b.skip(1) {
                assert(a =~= seq![a[0]] + a.skip(1));
                assert(b =~= seq![b[0]] + b.skip(1));
            }
            components_less_total(a.skip(1), b.skip(1));
        } else if a[0] is Normal && b[0] is Normal {
            text_less_total(a[0]->Normal_0, b[0]->Normal_0);
        }
    } else if a.len() == 0 && b.len() == 0 {
        assert(a =~= b);
    }
}

/// What comes before a list of components comes before all that follow it.
pub proof fn components_less_transitive(
    a: Seq<ComponentView>,
    b: Seq<ComponentView>,
    c: Seq<ComponentView>,
)
    requires
        components_less(a, b),
        components_less(b, c),
    ensures
        components_less(a, c),
    decreases a.len(),
{
    if a.len() > 0 {
        if a[0] == b[0] {
            if b[0] == c[0] {
                components_less_transitive(a.skip(1), b.skip(1), c.skip(1));
            }
        } else if a[0] is Normal && b[0] is Normal && c[0] is Normal && b[0] != c[0] {
            text_less_transitive(a[0]->Normal_0, b[0]->Normal_0, c[0]->Normal_0);
            text_less_irreflexive(a[0]->Normal_0);
        }
    }
}

/// The place of `a` against `b` in the order of components.
fn order_component(a: &Component, b: &Component) -> (order: Order)
    ensures
        order == (if a@ == b@ {
            Order::Equal
        } else if component_less(a@, b@) {
            Order::Less
        } else {
            Order::Greater
        }),
{
    match (a, b) {
        (Component::Normal(x), Component::Normal(y)) => order_chars(x.as_slice(), y.as_slice()),
        _ => {
            let left: u8 = rank(a);
            let right: u8 = rank(b);
            if left < right {
                Order::Less
            } else if left == right {
                Order::Equal
            } else {
                Order::Greater
            }
        },
    }
}

fn rank(c: &Component) -> (rank: u8)
    ensures
        rank == component_rank(c@),
{
    match c {
        Component::RootDir => 0,
        Component::CurDir => 1,
        Component::ParentDir => 2,
        Component::Normal(_) => 3,
    }
}

/// The place of `a` against `b` in the order of paths.
pub fn path_order(a: &str, b: &str) -> (order: Order)
    ensures
        order == path_order_spec(a@, b@),
{
    let left: Vec<Component> = components(a);
    let right: Vec<Component> = components(b);
    let ghost lv = component_views(left@);
    let ghost rv = component_views(right@);
    let mut i: usize = 0;
    proof {
        assert(lv.skip(0) =~= lv);
        assert(rv.skip(0) =~= rv);
    }
    while i < left.len() && i < right.len()
        invariant
            i <= left@.len(),
            i <= right@.len(),
            lv == component_views(left@),
            rv == component_views(right@),
            lv == components_spec(a@),
            rv == components_spec(b@),
            forall|j: int| 0 <= j < i ==> lv[j] == rv[j],
            components_less(lv, rv) == components_less(lv.skip(i as int), rv.skip(i as int)),
        decreases left@.len() - i,
    {
        proof {
            assert(lv[i as int] == left@[i as int]@);
            assert(rv[i as int] == right@[i as int]@);
            assert(lv.skip(i as int)[0] == lv[i as int]);
            assert(rv.skip(i as int)[0] == rv[i as int]);
        }
        match order_component(&left[i], &right[i]) {
            Order::Equal => {
                proof {
                    assert(lv.skip(i as int).skip(1) =~= lv.skip(i as int + 1));
                    assert(rv.skip(i as int).skip(1) =~= rv.skip(i as int + 1));
                }
                i = i + 1;
            },
            other => {
                return other;
            },
        }
    }
    if i == left.len() && i == right.len() {
        proof {
            assert(lv =~= rv);
        }
        Order::Equal
    } else if i == left.len() {
        Order::Less
    } else {
        Order::Greater
    }
}

/// Whether two paths have the same components.
pub fn same_path(a: &str, b: &str) -> (same: bool)
    ensures
        same == same_path_spec(a@, b@),
{
    match path_order(a, b) {
        Order::Equal => true,
        _ => false,
    }
}

proof fn slash_parts_concat(a: Seq<char>, b: Seq<char>)
    ensures
        slash_parts(a + seq!['/'] + b) == slash_parts(a) + slash_parts(b),
    decreases b.len(),
{
    let whole = a + seq!['/'] + b;
    slash_parts_nonempty(b);
    if b.len() == 0 {
        assert(whole.drop_last() =~= a);
        assert(slash_parts(whole) =~= slash_parts(a) + slash_parts(b));
    } else {
        let short = b.drop_last();
        slash_parts_concat(a, short);
        slash_parts_nonempty(short);
        assert(whole.drop_last() =~= a + seq!['/'] + short);
        assert(whole.last() == b.last());
        let before = slash_parts(a) + slash_parts(short);
        assert(before.drop_last() =~= slash_parts(a) + slash_parts(short).drop_last());
        assert(slash_parts(whole) =~= slash_parts(a) + slash_parts(b));
    }
}

/// `components` without the `.` that may lead it.
pub open spec fn without_cur_dir(components: Seq<ComponentView>) -> Seq<ComponentView> {
    if components.len() > 0 && components[0] is CurDir {
        components.skip(1)
    } else {
        components
    }
}

proof fn parts_concat(p: Seq<Seq<char>>, q: Seq<Seq<char>>)
    requires
        p.len() >= 1,
    ensures
        parts_components(p + q) == parts_components(p) + without_cur_dir(parts_components(q)),
        forall|i: int|
            1 <= i < parts_components(q).len() ==> !(#[trigger] parts_components(q)[i] is CurDir),
        q.len() > 0 && parts_components(q).len() > 0 && parts_components(q)[0] is CurDir
            ==> part_components(q[0], true) == seq![ComponentView::CurDir],
    decreases q.len(),
{
    if q.len() == 0 {
        assert(p + q =~= p);
        assert(parts_components(p) + without_cur_dir(parts_components(q)) =~= parts_components(p));
    } else {
        let short = q.drop_last();
        parts_concat(p, short);
        assert((p + q).drop_last() =~= p + short);
        assert((p + q).last() == q.last());
        let before = parts_components(short);
        let added = part_components(q.last(), false);
        if q.len() == 1 {
            assert(before =~= Seq::empty());
            assert(parts_components(q) =~= part_components(q.last(), true));
            assert(without_cur_dir(parts_components(q)) =~= added);
            assert(without_cur_dir(before) =~= Seq::empty());
            assert(parts_components(p + q) =~= parts_components(p) + without_cur_dir(
                parts_components(q),
            ));
        } else {
            assert(without_cur_dir(before + added) =~= without_cur_dir(before) + added) by {
                if before.len() == 0 {
                    assert(before + added =~= added);
                }
            }
            assert(parts_components(p + q) =~= parts_components(p) + without_cur_dir(
                parts_components(q),
            ));
            assert(q[0] == short[0]);
        }
    }
}

/// Joining adds components: a relative path taken from `base` has the
/// components of `base` followed by its own, but for a leading `.`.
pub proof fn join_adds_components(base: Seq<char>, rel: Seq<char>)
    requires
        base.len() > 0,
        !is_absolute_spec(rel),
    ensures
        components_spec(join_spec(base, rel)) == components_spec(base) + without_cur_dir(
            components_spec(rel),
        ),
{
    let whole = join_spec(base, rel);
    let root = root_components(base);
    assert(root_components(rel) + parts_components(slash_parts(rel)) =~= parts_components(
        slash_parts(rel),
    ));
    assert(whole[0] == base[0]);
    if base.last() == '/' {
        let head = base.drop_last();
        assert(whole =~= head + seq!['/'] + rel);
        slash_parts_concat(head, rel);
        slash_parts_nonempty(head);
        parts_concat(slash_parts(head), slash_parts(rel));
        let parts = slash_parts(base);
        assert(parts.drop_last() =~= slash_parts(head));
        assert(part_components(parts.last(), false) =~= Seq::empty());
        assert(parts_components(parts) =~= parts_components(slash_parts(head)));
    } else {
        slash_parts_concat(base, rel);
        slash_parts_nonempty(base);
        parts_concat(slash_parts(base), slash_parts(rel));
    }
    assert(components_spec(whole) =~= components_spec(base) + without_cur_dir(
        components_spec(rel),
    ));
}

/// A `.` stands nowhere but at the start of a path.
pub proof fn cur_dir_only_leads(path: Seq<char>)
    ensures
        forall|i: int|
            1 <= i < components_spec(path).len() ==> !(#[trigger] components_spec(path)[i]
                is CurDir),
{
    let parts = slash_parts(path);
    parts_concat(seq![Seq::empty()], parts);
    if is_absolute_spec(path) {
        let inner = parts_components(parts);
        first_part_of_absolute(path);
        slash_parts_nonempty(path);
        assert forall|i: int| 1 <= i < components_spec(path).len() implies !(
        #[trigger] components_spec(path)[i] is CurDir) by {
            assert(components_spec(path)[i] == inner[i - 1]);
            if i == 1 && inner[0] is CurDir {
                assert(part_components(parts[0], true).len() == 0);
            }
        }
    } else {
        assert(components_spec(path) =~= parts_components(parts));
    }
}

proof fn first_part_of_absolute(path: Seq<char>)
    requires
        is_absolute_spec(path),
    ensures
        slash_parts(path)[0].len() == 0,
    decreases path.len(),
{
    let short = path.drop_last();
    slash_parts_nonempty(short);
    if path.len() > 1 {
        first_part_of_absolute(short);
        let before = slash_parts(short);
        if before.len() == 1 && path.last() != '/' {
            absolute_has_two_parts(short);
        }
    } else {
        assert(short =~= Seq::empty());
        assert(slash_parts(short)[0].len() == 0);
    }
}

proof fn absolute_has_two_parts(path: Seq<char>)
    requires
        is_absolute_spec(path),
    ensures
        slash_parts(path).len() >= 2,
    decreases path.len(),
{
    let short = path.drop_last();
    slash_parts_nonempty(short);
    if path.len() > 1 {
        absolute_has_two_parts(short);
    }
}

/// Stripping the base from a join gives back the joined path, component by
/// component.
pub proof fn relative_to_undoes_join(base: Seq<char>, rel: Seq<char>)
    requires
        base.len() > 0,
        !is_absolute_spec(rel),
    ensures
        relative_to_spec(base, join_spec(base, rel)) == Some(
            path_text(without_cur_dir(components_spec(rel))),
        ),
{
    join_adds_components(base, rel);
    let from = components_spec(base);
    let added = without_cur_dir(components_spec(rel));
    assert((from + added).skip(from.len() as int) =~= added);
    assert(from.is_prefix_of(from + added));
}

/// A name that a path can end in: some text without a slash that is neither
/// `.` nor `..`.
pub open spec fn is_proper_name(name: Seq<char>) -> bool {
    &&& name.len() > 0
    &&& !name.contains('/')
    &&& name != seq!['.']
    &&& name != seq!['.', '.']
}

/// A component that can stand anywhere but at the start.
pub open spec fn is_inner(c: ComponentView) -> bool {
    match c {
        ComponentView::Normal(name) => is_proper_name(name),
        ComponentView::ParentDir => true,
        _ => false,
    }
}

proof fn parts_have_no_slash(path: Seq<char>)
    ensures
        forall|i: int|
            0 <= i < slash_parts(path).len() ==> !(#[trigger] slash_parts(path)[i]).contains('/'),
    decreases path.len(),
{
    if path.len() > 0 {
        let short = path.drop_last();
        let before = slash_parts(short);
        parts_have_no_slash(short);
        slash_parts_nonempty(short);
        assert forall|i: int| 0 <= i < slash_parts(path).len() implies !(
        #[trigger] slash_parts(path)[i]).contains('/') by {
            let part = slash_parts(path)[i];
            if i < before.len() - 1 {
                assert(part == before[i]);
            } else if path.last() != '/' {
                assert(part == before.last().push(path.last()));
                assert(!before[before.len() - 1].contains('/'));
                if part.contains('/') {
                    let k = choose|k: int| 0 <= k < part.len() && part[k] == '/';
                    assert(before.last()[k] == '/');
                }
            } else if i == before.len() - 1 {
                assert(part == before[i]);
            }
        }
    }
}

proof fn parts_components_inner(parts: Seq<Seq<char>>)
    requires
        forall|i: int| 0 <= i < parts.len() ==> !(#[trigger] parts[i]).contains('/'),
    ensures
        forall|i: int|
            0 <= i < parts_components(parts).len() ==> (#[trigger] parts_components(parts)[i]
                is CurDir || is_inner(parts_components(parts)[i])),
    decreases parts.len(),
{
    if parts.len() > 0 {
        let short = parts.drop_last();
        assert forall|i: int| 0 <= i < short.len() implies !(#[trigger] short[i]).contains('/') by {
            assert(short[i] == parts[i]);
        }
        parts_components_inner(short);
        let before = parts_components(short);
        let added = part_components(parts.last(), parts.len() == 1);
        assert(!parts[parts.len() - 1].contains('/'));
        assert forall|i: int| 0 <= i < parts_components(parts).len() implies (
        #[trigger] parts_components(parts)[i] is CurDir || is_inner(parts_components(parts)[i])) by {
            if i < before.len() {
                assert(parts_components(parts)[i] == before[i]);
            } else {
                assert(parts_components(parts)[i] == added[i - before.len()]);
            }
        }
    }
}

/// Behind its first component a path has names and `..` alone.
pub proof fn later_components_are_inner(path: Seq<char>)
    ensures
        forall|i: int|
            1 <= i < components_spec(path).len() ==> is_inner(#[trigger] components_spec(path)[i]),
{
    parts_have_no_slash(path);
    parts_components_inner(slash_parts(path));
    cur_dir_only_leads(path);
    let root = root_components(path);
    let inner = parts_components(slash_parts(path));
    assert forall|i: int| 1 <= i < components_spec(path).len() implies is_inner(
        #[trigger] components_spec(path)[i],
    ) by {
        assert(components_spec(path)[i] == inner[i - root.len()]);
    }
}

proof fn one_part(text: Seq<char>)
    requires
        !text.contains('/'),
    ensures
        slash_parts(text) == seq![text],
    decreases text.len(),
{
    if text.len() == 0 {
        assert(text =~= Seq::empty());
        assert(slash_parts(text) =~= seq![text]);
    } else {
        let short = text.drop_last();
        assert(text[text.len() - 1] != '/') by {
            if text[text.len() - 1] == '/' {
                assert(text.contains('/'));
            }
        }
        assert(!short.contains('/')) by {
            if short.contains('/') {
                let k = choose|k: int| 0 <= k < short.len() && short[k] == '/';
                assert(text[k] == '/');
            }
        }
        one_part(short);
        assert(short.push(text.last()) =~= text);
        assert(slash_parts(text) =~= seq![text]);
    }
}

proof fn inner_is_its_own_path(c: ComponentView)
    requires
        is_inner(c),
    ensures
        components_spec(component_text(c)) == seq![c],
        component_text(c).len() > 0,
        !is_absolute_spec(component_text(c)),
{
    let text = component_text(c);
    assert(!text.contains('/'));
    assert(text.len() > 0);
    if is_absolute_spec(text) {
        assert(text.contains(text[0]));
    }
    one_part(text);
    let parts = seq![text];
    assert(parts.drop_last() =~= Seq::empty());
    assert(parts_components(Seq::empty()) =~= Seq::empty());
    if c is ParentDir {
        assert(text != seq!['.']) by {
            assert(text.len() == 2);
        }
    }
    assert(part_components(text, true) =~= seq![c]);
    assert(components_spec(text) =~= seq![c]);
}

/// The path that is made of names and `..` has exactly these components.
pub proof fn path_text_has_its_components(components: Seq<ComponentView>)
    requires
        forall|i: int| 0 <= i < components.len() ==> is_inner(#[trigger] components[i]),
    ensures
        components_spec(path_text(components)) == components,
        components.len() > 0 ==> path_text(components).len() > 0,
    decreases components.len(),
{
    if components.len() == 0 {
        one_part(Seq::empty());
        let parts = seq![Seq::<char>::empty()];
        assert(parts.drop_last() =~= Seq::empty());
        assert(parts_components(Seq::empty()) =~= Seq::empty());
        assert(components_spec(path_text(components)) =~= components);
    } else {
        let short = components.drop_last();
        let last = components.last();
        assert forall|i: int| 0 <= i < short.len() implies is_inner(#[trigger] short[i]) by {
            assert(short[i] == components[i]);
        }
        path_text_has_its_components(short);
        assert(is_inner(components[components.len() - 1]));
        inner_is_its_own_path(last);
        let base = path_text(short);
        let text = component_text(last);
        if short.len() == 0 {
            assert(base =~= Seq::empty());
            assert(join_spec(base, text) =~= text);
            assert(components =~= seq![last]);
        } else {
            join_adds_components(base, text);
            assert(without_cur_dir(seq![last]) =~= seq![last]);
            assert(short + seq![last] =~= components);
        }
    }
}

/// A path below a root and the path that leads to it from the root end in the
/// same name.
pub proof fn relative_path_keeps_name(root: Seq<char>, path: Seq<char>)
    requires
        components_spec(root).len() >= 1,
        components_spec(path).len() > components_spec(root).len(),
        relative_to_spec(root, path) is Some,
    ensures
        components_spec(relative_to_spec(root, path)->Some_0) == components_spec(path).skip(
            components_spec(root).len() as int,
        ),
        file_name_spec(relative_to_spec(root, path)->Some_0) == file_name_spec(path),
        extension_spec(relative_to_spec(root, path)->Some_0) == extension_spec(path),
{
    let from = components_spec(root).len() as int;
    let to = components_spec(path);
    let tail = to.skip(from);
    later_components_are_inner(path);
    assert forall|i: int| 0 <= i < tail.len() implies is_inner(#[trigger] tail[i]) by {
        assert(tail[i] == to[i + from]);
    }
    path_text_has_its_components(tail);
    assert(tail.last() == to.last());
}

/// A part of a path, as the machine takes the path apart.
#[derive(Debug, Clone, PartialEq, Eq)]
pub enum PathPart {
    /// What stands before the root on some machines, such as a drive.
    Prefix,
    /// The root.
    RootDir,
    /// A leading `.`.
    CurDir,
    /// A `..`.
    ParentDir,
    /// A name.
    Normal(String),
}

/// The component that a part stands for. A prefix leads to a root.
pub open spec fn part_component(part: PathPart) -> ComponentView {
    match part {
        PathPart::Prefix => ComponentView::RootDir,
        PathPart::RootDir => ComponentView::RootDir,
        PathPart::CurDir => ComponentView::CurDir,
        PathPart::ParentDir => ComponentView::ParentDir,
        PathPart::Normal(name) => ComponentView::Normal(name@),
    }
}

/// The components that `parts` stand for. A root behind a prefix is no second
/// one.
pub open spec fn parts_listed(parts: Seq<PathPart>) -> Seq<ComponentView> {
    let all = parts.map_values(|p: PathPart| part_component(p));
    if parts.len() > 1 && parts[0] is Prefix && parts[1] is RootDir {
        all.skip(1)
    } else {
        all
    }
}

/// The text of the component that a part stands for.
fn text_of_part(part: &PathPart) -> (text: String)
    ensures
        text@ == component_text(part_component(*part)),
{
    match part {
        PathPart::Prefix | PathPart::RootDir => text_of_component(&Component::RootDir),
        PathPart::CurDir => text_of_component(&Component::CurDir),
        PathPart::ParentDir => text_of_component(&Component::ParentDir),
        PathPart::Normal(name) => name.clone(),
    }
}

/// The path that is made of `parts`.
pub fn text_of_parts(parts: &[PathPart]) -> (text: String)
    ensures
        text@ == path_text(parts_listed(parts@)),
{
    let ghost all = parts@.map_values(|p: PathPart| part_component(p));
    let ghost listed = parts_listed(parts@);
    let from: usize = if parts.len() > 1 {
        match (&parts[0], &parts[1]) {
            (PathPart::Prefix, PathPart::RootDir) => 1,
            _ => 0,
        }
    } else {
        0
    };
    let mut text: String = String::new();
    proof {
        assert(all.skip(0) =~= all);
        assert(listed == all.skip(from as int));
        assert(listed.take(0) =~= Seq::empty());
    }
    for i in from..parts.len()
        invariant
            from <= parts@.len(),
            all == parts@.map_values(|p: PathPart| part_component(p)),
            listed == all.skip(from as int),
            text@ == path_text(listed.take(i - from)),
    {
        let ghost k: int = i - from;
        text = join(text.as_str(), text_of_part(&parts[i]).as_str());
        proof {
            assert(listed.take(k + 1).drop_last() =~= listed.take(k));
            assert(listed.take(k + 1).last() == all[i as int]);
        }
    }
    proof {
        assert(listed.take(listed.len() as int) =~= listed);
    }
    text
}

/// A machine takes a path apart into `parts`: a prefix, a root and a `.` stand
/// at the start alone, and the rest are names and `..`.
pub open spec fn taken_apart(parts: Seq<PathPart>) -> bool {
    let listed = parts_listed(parts);
    &&& forall|i: int| 1 <= i < listed.len() ==> is_inner(#[trigger] listed[i])
    &&& listed.len() > 0 && listed[0] is Normal ==> is_inner(listed[0])
}

proof fn leading_component(c: ComponentView)
    requires
        c is RootDir || c is CurDir,
    ensures
        components_spec(component_text(c)) == seq![c],
{
    let text = component_text(c);
    if c is CurDir {
        assert(!text.contains('/'));
        one_part(text);
        let parts = seq![text];
        assert(parts.drop_last() =~= Seq::empty());
        assert(parts_components(Seq::empty()) =~= Seq::empty());
        assert(components_spec(text) =~= seq![c]);
    } else {
        assert(text.drop_last() =~= Seq::empty());
        one_part(Seq::empty());
        let parts = slash_parts(text);
        assert(parts =~= seq![Seq::<char>::empty(), Seq::<char>::empty()]);
        assert(parts.drop_last() =~= seq![Seq::<char>::empty()]);
        assert(parts.drop_last().drop_last() =~= Seq::empty());
        assert(parts_components(Seq::empty()) =~= Seq::empty());
        assert(parts_components(parts.drop_last()) =~= Seq::empty());
        assert(components_spec(text) =~= seq![c]);
    }
}

proof fn led_path_has_its_components(components: Seq<ComponentView>)
    requires
        components.len() > 0,
        components[0] is RootDir || components[0] is CurDir,
        forall|i: int| 1 <= i < components.len() ==> is_inner(#[trigger] components[i]),
    ensures
        components_spec(path_text(components)) == components,
        path_text(components).len() > 0,
    decreases components.len(),
{
    let short = components.drop_last();
    let last = components.last();
    let text = component_text(last);
    if short.len() == 0 {
        leading_component(last);
        assert(path_text(short) =~= Seq::empty());
        assert(join_spec(path_text(short), text) =~= text);
        assert(components =~= seq![last]);
    } else {
        assert forall|i: int| 1 <= i < short.len() implies is_inner(#[trigger] short[i]) by {
            assert(short[i] == components[i]);
        }
        led_path_has_its_components(short);
        assert(is_inner(components[components.len() - 1]));
        inner_is_its_own_path(last);
        join_adds_components(path_text(short), text);
        assert(without_cur_dir(seq![last]) =~= seq![last]);
        assert(short + seq![last] =~= components);
    }
}

/// The text that is made of a path's parts has exactly the components that they
/// stand for.
pub proof fn text_of_parts_has_its_components(parts: Seq<PathPart>)
    requires
        taken_apart(parts),
    ensures
        components_spec(path_text(parts_listed(parts))) == parts_listed(parts),
{
    let listed = parts_listed(parts);
    if listed.len() > 0 && (listed[0] is RootDir || listed[0] is CurDir) {
        led_path_has_its_components(listed);
    } else {
        assert forall|i: int| 0 <= i < listed.len() implies is_inner(#[trigger] listed[i]) by {}
        path_text_has_its_components(listed);
    }
}

proof fn dot_is_last(stem: Seq<char>, ext: Seq<char>)
    requires
        !ext.contains('.'),
    ensures
        last_dot(stem + seq!['.'] + ext) == Some(stem.len() as int),
    decreases ext.len(),
{
    let name = stem + seq!['.'] + ext;
    if ext.len() == 0 {
        assert(name.last() == '.');
    } else {
        let short = ext.drop_last();
        assert(ext[ext.len() - 1] != '.') by {
            if ext[ext.len() - 1] == '.' {
                assert(ext.contains('.'));
            }
        }
        assert(!short.contains('.')) by {
            if short.contains('.') {
                let k = choose|k: int| 0 <= k < short.len() && short[k] == '.';
                assert(ext[k] == '.');
            }
        }
        dot_is_last(stem, short);
        assert(name.drop_last() =~= stem + seq!['.'] + short);
    }
}

/// The extension of a name is what follows its last dot, where something stands
/// before that dot.
pub proof fn extension_follows_the_last_dot(stem: Seq<char>, ext: Seq<char>)
    requires
        !ext.contains('.'),
    ensures
        name_extension(stem + seq!['.'] + ext) == (if stem.len() > 0 {
            Some(ext)
        } else {
            None
        }),
{
    let name = stem + seq!['.'] + ext;
    dot_is_last(stem, ext);
    assert(name.skip(stem.len() as int + 1) =~= ext);
}

/// A name without a dot has no extension.
pub proof fn no_dot_no_extension(name: Seq<char>)
    requires
        !name.contains('.'),
    ensures
        name_extension(name) is None,
    decreases name.len(),
{
    if name.len() > 0 {
        let short = name.drop_last();
        assert(name.last() != '.') by {
            if name.last() == '.' {
                assert(name[name.len() - 1] == '.');
            }
        }
        assert(!short.contains('.')) by {
            if short.contains('.') {
                let k = choose|k: int| 0 <= k < short.len() && short[k] == '.';
                assert(name[k] == '.');
            }
        }
        no_dot_no_extension(short);
    }
}

/// A path that was joined from a directory and a name ends in that name, and has
/// its extension.
pub proof fn joined_path_ends_in_its_name(dir: Seq<char>, name: Seq<char>)
    requires
        is_proper_name(name),
    ensures
        file_name_spec(join_spec(dir, name)) == Some(name),
        extension_spec(join_spec(dir, name)) == name_extension(name),
        file_name_spec(name) == Some(name),
{
    let c = ComponentView::Normal(name);
    inner_is_its_own_path(c);
    assert(components_spec(name) == seq![c]);
    if dir.len() == 0 {
        assert(join_spec(dir, name) =~= name);
    } else {
        join_adds_components(dir, name);
        assert(without_cur_dir(seq![c]) =~= seq![c]);
    }
}

} // verus!
