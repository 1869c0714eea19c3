//! Paths as sequences of components, with the meaning that Unix gives
//! them: `/` separates components, a leading `/` is the root, empty and `.`
//! components inside a path are skipped, a leading `.` names the current
//! directory, and `..` the parent.
use vstd::prelude::*;
use crate::text::{push_char, str_eq};

verus! {

/// One component of a path.
#[derive(Debug, Clone)]
pub enum PathComponent {
    RootDir,
    CurDir,
    ParentDir,
    Normal(String),
}

/// A path component as a mathematical value.
pub enum ComponentView {
    RootDir,
    CurDir,
    ParentDir,
    Normal(Seq<char>),
}

impl View for PathComponent {
    type V = ComponentView;

    open spec fn view(&self) -> ComponentView {
        match self {
            PathComponent::RootDir => ComponentView::RootDir,
            PathComponent::CurDir => ComponentView::CurDir,
            PathComponent::ParentDir => ComponentView::ParentDir,
            PathComponent::Normal(s) => ComponentView::Normal(s@),
        }
    }
}

pub open spec fn comps_view(v: Seq<PathComponent>) -> Seq<ComponentView> {
    v.map_values(|c: PathComponent| c@)
}

/// Splits on `/`, keeping empty pieces (`str::split('/')`).
pub open spec fn split_slash(t: Seq<char>) -> Seq<Seq<char>>
    decreases t.len(),
{
    if t.len() == 0 {
        seq![Seq::<char>::empty()]
    } else {
        let prev = split_slash(t.drop_last());
        let c = t.last();
        if c == '/' {
            prev.push(Seq::<char>::empty())
        } else {
            prev.update(prev.len() - 1, prev.last().push(c))
        }
    }
}

pub proof fn lemma_split_nonempty(t: Seq<char>)
    ensures
        split_slash(t).len() >= 1,
    decreases t.len(),
{
    if t.len() > 0 {
        lemma_split_nonempty(t.drop_last());
    }
}

pub open spec fn dot() -> Seq<char> {
    seq!['.']
}

pub open spec fn dot_dot() -> Seq<char> {
    seq!['.', '.']
}

/// The component that a piece between separators stands for, if any.
pub open spec fn piece_component(seg: Seq<char>) -> Seq<ComponentView> {
    if seg.len() == 0 || seg == dot() {
        seq![]
    } else if seg == dot_dot() {
        seq![ComponentView::ParentDir]
    } else {
        seq![ComponentView::Normal(seg)]
    }
}

pub open spec fn body_components(segs: Seq<Seq<char>>) -> Seq<ComponentView>
    decreases segs.len(),
{
    if segs.len() == 0 {
        seq![]
    } else {
        body_components(segs.drop_last()) + piece_component(segs.last())
    }
}

/// Whether the path starts at the root.
pub open spec fn has_root(s: Seq<char>) -> bool {
    s.len() > 0 && s[0] == '/'
}

/// Whether the path starts with a `.` component.
pub open spec fn starts_with_cur_dir(s: Seq<char>) -> bool {
    !has_root(s) && s.len() > 0 && s[0] == '.' && (s.len() == 1 || s[1] == '/')
}

/// The components of a path.
pub open spec fn components_spec(s: Seq<char>) -> Seq<ComponentView> {
    if has_root(s) {
        seq![ComponentView::RootDir] + body_components(split_slash(s.drop_first()))
    } else if starts_with_cur_dir(s) {
        seq![ComponentView::CurDir] + body_components(split_slash(s.drop_first()))
    } else {
        body_components(split_slash(s))
    }
}

/// The components that follow `base` in `path`, when `base`'s components begin `path`'s.
pub open spec fn strip_components(path: Seq<ComponentView>, base: Seq<ComponentView>) -> Option<Seq<ComponentView>> {
    if base.is_prefix_of(path) {
        Some(path.subrange(base.len() as int, path.len() as int))
    } else {
        None
    }
}

/// Body components are only parent-directory and named components.
pub proof fn lemma_body_kinds(segs: Seq<Seq<char>>)
    ensures
        forall|i: int| 0 <= i < body_components(segs).len() ==>
            (#[trigger] body_components(segs)[i] is ParentDir || body_components(segs)[i] is Normal),
        forall|i: int| 0 <= i < body_components(segs).len() ==>
            (#[trigger] body_components(segs)[i] matches ComponentView::Normal(n) ==> n.len() > 0),
    decreases segs.len(),
{
    if segs.len() > 0 {
        lemma_body_kinds(segs.drop_last());
    }
}

/// Every named component of a path has a non-empty name.
pub proof fn lemma_component_names_nonempty(s: Seq<char>)
    ensures
        forall|i: int| 0 <= i < components_spec(s).len() ==>
            (#[trigger] components_spec(s)[i] matches ComponentView::Normal(n) ==> n.len() > 0),
{
    lemma_body_kinds(split_slash(s));
    lemma_body_kinds(split_slash(s.drop_first()));
    let c = components_spec(s);
    let b = body_components(split_slash(s.drop_first()));
    assert forall|i: int| 0 <= i < c.len() implies
        (#[trigger] c[i] matches ComponentView::Normal(n) ==> n.len() > 0) by {
        if (has_root(s) || starts_with_cur_dir(s)) && i > 0 {
            assert(c[i] == b[i - 1]);
        }
    }
}

/// Joining named components ends with the last name, so it is never
/// shorter than that name.
pub proof fn lemma_join_names_ends_with_last(comps: Seq<ComponentView>)
    requires
        comps.len() > 0,
        comps.last() is Normal,
    ensures
        join_names(comps).len() >= comps.last()->Normal_0.len(),
{
}

fn piece_to_component(seg: &String, out: &mut Vec<PathComponent>)
    ensures
        comps_view(final(out)@) == comps_view(old(out)@) + piece_component(seg@),
{
    let ghost before = comps_view(out@);
    let n = seg.as_str().unicode_len();
    if n == 0 {
        assert(comps_view(out@) =~= before + piece_component(seg@));
        return;
    }
    let c0 = seg.as_str().get_char(0);
    if n == 1 && c0 == '.' {
        assert(seg@ =~= dot());
        assert(comps_view(out@) =~= before + piece_component(seg@));
        return;
    }
    if n == 2 && c0 == '.' && seg.as_str().get_char(1) == '.' {
        assert(seg@ =~= dot_dot());
        out.push(PathComponent::ParentDir);
        assert(comps_view(out@) =~= before + piece_component(seg@));
        return;
    }
    proof {
        if seg@ == dot() {
            assert(seg@[0] == '.');
        }
        if seg@ == dot_dot() {
            assert(seg@[0] == '.' && seg@[1] == '.');
        }
    }
    out.push(PathComponent::Normal(seg.clone()));
    assert(comps_view(out@) =~= before + piece_component(seg@));
}

/// `Path::components` on a path written as a string.
pub fn path_components(s: &str) -> (r: Vec<PathComponent>)
    ensures
        comps_view(r@) == components_spec(s@),
{
    let n = s.unicode_len();
    let mut out: Vec<PathComponent> = Vec::new();
    let mut start: usize = 0;
    if n > 0 && s.get_char(0) == '/' {
        out.push(PathComponent::RootDir);
        start = 1;
    } else if n > 0 && s.get_char(0) == '.' && (n == 1 || s.get_char(1) == '/') {
        out.push(PathComponent::CurDir);
        start = 1;
    }
    let ghost head = comps_view(out@);
    let ghost t = s@.subrange(start as int, n as int);
    assert(has_root(s@) || starts_with_cur_dir(s@) ==> t =~= s@.drop_first());
    assert(!(has_root(s@) || starts_with_cur_dir(s@)) ==> t =~= s@);
    assert(components_spec(s@) == head + body_components(split_slash(t)));
    let mut cur = String::new();
    let mut i: usize = start;
    proof {
        assert(t.subrange(0, 0) =~= Seq::<char>::empty());
        assert(split_slash(Seq::<char>::empty()).drop_last() =~= Seq::<Seq<char>>::empty());
        assert(head + body_components(Seq::<Seq<char>>::empty()) =~= head);
    }
    while i < n
        invariant
            start <= i <= n,
            n == s@.len(),
            t == s@.subrange(start as int, n as int),
            split_slash(t.subrange(0, i - start)).len() >= 1,
            comps_view(out@) == head + body_components(split_slash(t.subrange(0, i - start)).drop_last()),
            cur@ == split_slash(t.subrange(0, i - start)).last(),
        decreases n - i,
    {
        let c = s.get_char(i);
        let ghost pre = t.subrange(0, i - start);
        let ghost next = t.subrange(0, i + 1 - start);
        let ghost sp = split_slash(pre);
        assert(next.drop_last() =~= pre);
        assert(next.last() == c);
        if c == '/' {
            piece_to_component(&cur, &mut out);
            cur = String::new();
            proof {
                assert(split_slash(next) == sp.push(Seq::<char>::empty()));
                assert(split_slash(next).drop_last() =~= sp);
                assert(sp.drop_last().push(sp.last()) =~= sp);
                assert(body_components(sp) == body_components(sp.drop_last()) + piece_component(sp.last()));
                assert(comps_view(out@) =~= head + body_components(sp));
            }
        } else {
            push_char(&mut cur, c);
            proof {
                assert(split_slash(next) == sp.update(sp.len() - 1, sp.last().push(c)));
                assert(split_slash(next).drop_last() =~= sp.drop_last());
            }
        }
        i += 1;
    }
    assert(t.subrange(0, n - start) =~= t);
    proof {
        lemma_split_nonempty(t);
        let sp = split_slash(t);
        assert(sp.drop_last().push(sp.last()) =~= sp);
        assert(body_components(sp) == body_components(sp.drop_last()) + piece_component(sp.last()));
    }
    piece_to_component(&cur, &mut out);
    assert(comps_view(out@) =~= components_spec(s@));
    out
}

/// Whether two components are equal.
pub fn component_eq(a: &PathComponent, b: &PathComponent) -> (r: bool)
    ensures
        r == (a@ == b@),
{
    match (a, b) {
        (PathComponent::RootDir, PathComponent::RootDir) => true,
        (PathComponent::CurDir, PathComponent::CurDir) => true,
        (PathComponent::ParentDir, PathComponent::ParentDir) => true,
        (PathComponent::Normal(x), PathComponent::Normal(y)) => str_eq(x.as_str(), y.as_str()),
        _ => false,
    }
}

/// `Path::strip_prefix`, component by component: the components of `path`
/// that follow those of `base`, or `None` when `base` does not begin `path`.
pub fn strip_path_prefix(path: &str, base: &str) -> (r: Option<Vec<PathComponent>>)
    ensures
        match r {
            Some(rest) => strip_components(components_spec(path@), components_spec(base@)) == Some(comps_view(rest@)),
            None => strip_components(components_spec(path@), components_spec(base@)) is None,
        },
{
    let pc = path_components(path);
    let bc = path_components(base);
    let ghost pv = comps_view(pc@);
    let ghost bv = comps_view(bc@);
    if bc.len() > pc.len() {
        assert(bv.len() > pv.len());
        assert(!bv.is_prefix_of(pv));
        return None;
    }
    let mut i: usize = 0;
    while i < bc.len()
        invariant
            i <= bc@.len() <= pc@.len(),
            pv == comps_view(pc@),
            bv == comps_view(bc@),
            pv == components_spec(path@),
            bv == components_spec(base@),
            forall|k: int| 0 <= k < i ==> bv[k] == pv[k],
        decreases bc@.len() - i,
    {
        if !component_eq(&bc[i], &pc[i]) {
            assert(!bv.is_prefix_of(pv)) by {
                assert(bv[i as int] != pv[i as int]);
                if bv.is_prefix_of(pv) {
                    assert(pv.subrange(0, bv.len() as int)[i as int] == pv[i as int]);
                }
            }
            return None;
        }
        i += 1;
    }
    assert(bv.is_prefix_of(pv)) by {
        assert(pv.subrange(0, bv.len() as int) =~= bv);
    }
    let mut rest: Vec<PathComponent> = Vec::new();
    let mut j: usize = bc.len();
    while j < pc.len()
        invariant
            bc@.len() <= j <= pc@.len(),
            pv == comps_view(pc@),
            comps_view(rest@) =~= pv.subrange(bc@.len() as int, j as int),
        decreases pc@.len() - j,
    {
        let ghost before = comps_view(rest@);
        let c = pc[j].clone_component();
        rest.push(c);
        assert(comps_view(rest@) =~= before.push(pv[j as int]));
        j += 1;
    }
    Some(rest)
}

impl PathComponent {
    /// A copy of the component.
    pub fn clone_component(&self) -> (r: PathComponent)
        ensures
            r@ == self@,
    {
        match self {
            PathComponent::RootDir => PathComponent::RootDir,
            PathComponent::CurDir => PathComponent::CurDir,
            PathComponent::ParentDir => PathComponent::ParentDir,
            PathComponent::Normal(s) => PathComponent::Normal(s.clone()),
        }
    }
}

/// Named components joined by `/`.
pub open spec fn join_names(comps: Seq<ComponentView>) -> Seq<char>
    decreases comps.len(),
{
    if comps.len() == 0 {
        seq![]
    } else {
        let prev = join_names(comps.drop_last());
        let name = match comps.last() {
            ComponentView::Normal(n) => n,
            _ => seq![],
        };
        if comps.len() == 1 {
            name
        } else {
            prev.push('/') + name
        }
    }
}

/// Whether every component is a named one.
pub open spec fn all_named(comps: Seq<ComponentView>) -> bool {
    forall|i: int| 0 <= i < comps.len() ==> #[trigger] comps[i] is Normal
}

/// Joins named components with `/`; `None` when a component is not a named one.
pub fn join_named_components(comps: &Vec<PathComponent>) -> (r: Option<String>)
    ensures
        match r {
            Some(s) => all_named(comps_view(comps@)) && s@ == join_names(comps_view(comps@)),
            None => !all_named(comps_view(comps@)),
        },
{
    let ghost cv = comps_view(comps@);
    let mut out = String::new();
    let mut i: usize = 0;
    while i < comps.len()
        invariant
            i <= comps@.len(),
            cv == comps_view(comps@),
            all_named(cv.subrange(0, i as int)),
            out@ == join_names(cv.subrange(0, i as int)),
        decreases comps@.len() - i,
    {
        let ghost pre = cv.subrange(0, i as int);
        let ghost next = cv.subrange(0, i + 1);
        assert(next.drop_last() =~= pre);
        match &comps[i] {
            PathComponent::Normal(name) => {
                if i > 0 {
                    push_char(&mut out, '/');
                }
                out.append(name.as_str());
                assert(next.last() == cv[i as int]);
            },
            _ => {
                assert(!(cv[i as int] is Normal));
                return None;
            },
        }
        i += 1;
    }
    assert(cv.subrange(0, comps@.len() as int) =~= cv);
    Some(out)
}

} // verus!
