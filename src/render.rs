//! Drawing one node of the tree: its name, indentation, connector and
//! capability glyphs.

use vstd::prelude::*;
use crate::probe::{Capability, PermissionResult, ProbeOutcome, capabilities_spec, judged};
use crate::walk::{FsNode, Visit, Walker, listings, preorder, run, lemma_walk_visits_preorder};
use crate::style::{blue, bold, bold_code, blue_code, green, green_code, painted, red, red_code};

verus! {

/// The last component of `path` as `std::path::Path::file_name` gives it,
/// or nothing where the path ends without a name (a root, `..`).
pub uninterp spec fn file_name_of(path: Seq<char>) -> Option<Seq<char>>;

/// Relies on `std::path::Path::file_name`: the final component of a path,
/// a function of the path's text alone.
#[verifier::external_body]
fn file_name(path: &str) -> (r: Option<String>)
    ensures
        optional_view(r) == file_name_of(path@),
{
    std::path::Path::new(path).file_name().map(|n| n.to_string_lossy().into_owned())
}

pub open spec fn unknown_name() -> Seq<char> {
    seq!['U', 'n', 'k', 'n', 'o', 'w', 'n']
}

/// The name shown for `path` where its last component is `base`: the whole
/// path, or in human-readable mode that component, with the filesystem root
/// shown as a single separator and a path without one as `Unknown`.
pub open spec fn name_shown(path: Seq<char>, human_readable: bool, base: Option<Seq<char>>) -> Seq<char> {
    if !human_readable {
        path
    } else if path == seq!['/'] {
        path
    } else {
        match base {
            Some(n) => n,
            None => unknown_name(),
        }
    }
}

pub open spec fn display_name_spec(path: Seq<char>, human_readable: bool) -> Seq<char> {
    name_shown(path, human_readable, file_name_of(path))
}

pub open spec fn optional_view(o: Option<String>) -> Option<Seq<char>> {
    match o {
        Some(s) => Some(s@),
        None => None,
    }
}

/// The name shown for `path`, given its last component `base`.
pub fn display_name_from(path: &str, human_readable: bool, base: Option<String>) -> (r: String)
    ensures
        r@ == name_shown(path@, human_readable, optional_view(base)),
{
    if !human_readable {
        return String::from_str(path);
    }
    if path.unicode_len() == 1 && path.get_char(0) == '/' {
        assert(path@ =~= seq!['/']);
        return String::from_str(path);
    }
    match base {
        Some(n) => n,
        None => {
            proof {
                reveal_strlit("Unknown");
            }
            String::from_str("Unknown")
        },
    }
}

/// The name shown for `path`.
pub fn display_name(path: &str, human_readable: bool) -> (r: String)
    ensures
        r@ == display_name_spec(path@, human_readable),
{
    let base = if human_readable {
        file_name(path)
    } else {
        None
    };
    display_name_from(path, human_readable, base)
}

/// One level of indentation.
pub open spec fn indent_unit() -> Seq<char> {
    seq![' ', ' ', ' ', ' ']
}

/// The indentation of a node at `depth`: none for the root and its
/// children, one unit more for each level below them.
pub open spec fn indent_spec(depth: nat) -> Seq<char>
    decreases depth,
{
    if depth <= 1 {
        Seq::empty()
    } else {
        indent_spec((depth - 1) as nat) + indent_unit()
    }
}

pub fn indentation(depth: usize) -> (r: String)
    ensures
        r@ == indent_spec(depth as nat),
{
    proof {
        reveal_strlit("    ");
    }
    let mut r = String::new();
    let mut level: usize = 1;
    while level < depth
        invariant
            1 <= level,
            level <= depth || level == 1,
            r@ == indent_spec(level as nat),
        decreases depth - level,
    {
        proof {
            reveal_strlit("    ");
        }
        r.append("    ");
        level = level + 1;
        assert(r@ =~= indent_spec(level as nat));
    }
    proof {
        if depth <= 1 {
            assert(level == 1);
            assert(indent_spec(depth as nat) =~= indent_spec(1));
        }
    }
    r
}

pub open spec fn corner() -> Seq<char> {
    seq!['\u{2514}', '\u{2500}', '\u{2500}', ' ']
}

pub open spec fn branch() -> Seq<char> {
    seq!['\u{251c}', '\u{2500}', '\u{2500}', ' ']
}

/// The connector before a node's name: none for the root, a corner for the
/// last entry of a listing, a branch for any other.
pub open spec fn connector_spec(depth: nat, is_last: bool) -> Seq<char> {
    if depth == 0 {
        Seq::empty()
    } else if is_last {
        corner()
    } else {
        branch()
    }
}

pub fn connector(depth: usize, is_last: bool) -> (r: &'static str)
    ensures
        r@ == connector_spec(depth as nat, is_last),
{
    proof {
        reveal_strlit("");
        reveal_strlit("└── ");
        reveal_strlit("├── ");
    }
    if depth == 0 {
        ""
    } else if is_last {
        "└── "
    } else {
        "├── "
    }
}

/// One capability letter, bold, green when allowed and red when denied.
pub open spec fn glyph_spec(allowed: bool, letter: char) -> Seq<char> {
    painted(bold_code(), painted(if allowed { green_code() } else { red_code() }, seq![letter]))
}

/// The glyphs of a node: R, W, and T for a directory only.
pub open spec fn glyphs_spec(p: PermissionResult) -> Seq<char> {
    let rw = glyph_spec(p.read, 'R') + glyph_spec(p.write, 'W');
    match p.traverse {
        Some(t) => rw + glyph_spec(t, 'T'),
        None => rw,
    }
}

/// One glyph for each capability of `caps`, in order.
pub open spec fn glyphs_of(p: PermissionResult, caps: Seq<Capability>) -> Seq<char>
    decreases caps.len(),
{
    if caps.len() == 0 {
        Seq::empty()
    } else {
        glyphs_of(p, caps.drop_last()) + glyph_spec(p.allows(caps.last()), caps.last().letter_spec())
    }
}

fn glyph(allowed: bool, cap: Capability) -> (r: String)
    ensures
        r@ == glyph_spec(allowed, cap.letter_spec()),
{
    let coloured = if allowed {
        green(cap.letter(), None)
    } else {
        red(cap.letter(), None)
    };
    bold(coloured.as_str())
}

pub fn capability_glyphs(p: &PermissionResult) -> (r: String)
    ensures
        r@ == glyphs_spec(*p),
{
    let mut r = glyph(p.read, Capability::Read);
    let w = glyph(p.write, Capability::Write);
    r.append(w.as_str());
    match p.traverse {
        Some(t) => {
            let g = glyph(t, Capability::Traverse);
            r.append(g.as_str());
        },
        None => {},
    }
    r
}

/// The line drawn for a node: indentation, connector, its name in bold
/// blue, a space, then its capability glyphs.
pub open spec fn line_spec(name: Seq<char>, depth: nat, is_last: bool, p: PermissionResult) -> Seq<
    char,
> {
    indent_spec(depth) + connector_spec(depth, is_last) + painted(bold_code(), painted(blue_code(), name))
        + seq![' '] + glyphs_spec(p)
}

/// The line for the node at `path`, `depth` levels below the root.
pub fn render_line(path: &str, human_readable: bool, depth: usize, is_last: bool, p: &PermissionResult) -> (r: String)
    ensures
        r@ == line_spec(display_name_spec(path@, human_readable), depth as nat, is_last, *p),
{
    let name = display_name(path, human_readable);
    let mut r = indentation(depth);
    r.append(connector(depth, is_last));
    let shown = blue(name.as_str(), None);
    let shown = bold(shown.as_str());
    r.append(shown.as_str());
    proof {
        reveal_strlit(" ");
    }
    r.append(" ");
    let g = capability_glyphs(p);
    r.append(g.as_str());
    r
}

/// A directory's line carries one glyph for each of R, W and T, in that
/// order, and a file's one for each of R and W: one per probed capability.
pub proof fn lemma_one_glyph_per_capability(p: PermissionResult)
    ensures
        glyphs_spec(p) == glyphs_of(p, capabilities_spec(p.is_dir())),
        capabilities_spec(p.is_dir()).map_values(|c: Capability| c.letter_spec()) == (if p.is_dir() {
            seq!['R', 'W', 'T']
        } else {
            seq!['R', 'W']
        }),
{
    let caps = capabilities_spec(p.is_dir());
    assert(caps.map_values(|c: Capability| c.letter_spec()) =~= (if p.is_dir() {
        seq!['R', 'W', 'T']
    } else {
        seq!['R', 'W']
    }));
    let r = seq![Capability::Read];
    let e = Seq::<Capability>::empty();
    assert(r.drop_last() =~= e);
    assert(glyphs_of(p, r) == glyphs_of(p, e) + glyph_spec(p.read, 'R'));
    assert(glyphs_of(p, r) =~= glyph_spec(p.read, 'R'));
    let rw = seq![Capability::Read, Capability::Write];
    assert(rw.drop_last() =~= r);
    assert(glyphs_of(p, rw) == glyphs_of(p, r) + glyph_spec(p.write, 'W'));
    if p.is_dir() {
        assert(caps.drop_last() =~= rw);
        assert(glyphs_of(p, caps) == glyphs_of(p, rw) + glyph_spec(p.allows(Capability::Traverse), 'T'));
        assert(glyphs_of(p, caps) =~= glyphs_spec(p));
    } else {
        assert(caps =~= rw);
        assert(glyphs_of(p, caps) =~= glyphs_spec(p));
    }
}

/// Where no probe could be run, every capability glyph shows as denied.
pub proof fn lemma_unrun_probes_deny_all(is_dir: bool)
    ensures
        ({
            let p = judged(
                ProbeOutcome::NotRun,
                ProbeOutcome::NotRun,
                if is_dir { Some(ProbeOutcome::NotRun) } else { None },
            );
            &&& forall|c: Capability| !p.allows(c)
            &&& glyphs_spec(p) == if is_dir {
                glyph_spec(false, 'R') + glyph_spec(false, 'W') + glyph_spec(false, 'T')
            } else {
                glyph_spec(false, 'R') + glyph_spec(false, 'W')
            }
        }),
{
}

/// The root's line starts with its name, with no indentation and no
/// connector; any other line has its indentation, then the corner connector
/// if it is the last entry of its listing and the branch connector if not.
pub proof fn lemma_line_layout(name: Seq<char>, depth: nat, is_last: bool, p: PermissionResult)
    ensures
        depth == 0 ==> line_spec(name, depth, is_last, p) == painted(
            bold_code(),
            painted(blue_code(), name),
        ) + seq![' '] + glyphs_spec(p),
        depth > 0 ==> line_spec(name, depth, is_last, p) == indent_spec(depth) + (if is_last {
            corner()
        } else {
            branch()
        }) + painted(bold_code(), painted(blue_code(), name)) + seq![' '] + glyphs_spec(p),
        indent_spec(depth).len() == if depth == 0 { 0 } else { 4 * (depth - 1) },
    decreases depth,
{
    if depth == 0 {
        assert(indent_spec(0) + connector_spec(0, is_last) =~= Seq::<char>::empty());
        assert(line_spec(name, depth, is_last, p) =~= painted(bold_code(), painted(blue_code(), name))
            + seq![' '] + glyphs_spec(p));
    } else {
        lemma_line_layout(name, (depth - 1) as nat, is_last, p);
    }
}

/// The lines drawn for `visits`, each node's access taken from `access`.
pub open spec fn lines_of(
    visits: Seq<Visit>,
    human_readable: bool,
    access: spec_fn(Seq<char>) -> PermissionResult,
) -> Seq<Seq<char>> {
    visits.map_values(
        |v: Visit|
            line_spec(
                display_name_spec(v.path@, human_readable),
                v.depth as nat,
                v.is_last,
                access(v.path@),
            ),
    )
}

/// With a fixed table of probe answers, the output of a traversal depends on
/// the tree, its listing order and the display mode alone: every run over
/// the same tree draws the same lines.
pub proof fn lemma_output_fixed_by_tree(
    root: FsNode,
    human_readable: bool,
    access: spec_fn(Seq<char>) -> PermissionResult,
)
    ensures
        ({
            let v = Walker::root_visit(root.path, root.is_dir);
            lines_of(run(seq![v], listings(root)).0, human_readable, access) == lines_of(
                preorder(root, v),
                human_readable,
                access,
            )
        }),
{
    lemma_walk_visits_preorder(root);
}

} // verus!
