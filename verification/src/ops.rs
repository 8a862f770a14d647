//! Reading the raw command line: the debug flag, and the operations that
//! `???` separates (`tarah -S foo ??? -R bar`).

use vstd::prelude::*;
use crate::text::{lemma_split_on_concat, equals, views, starts_with_char, split_whitespace, split_on_str, trim, words, split_on, trim_spec};

verus! {

/// What one operation of the raw command line asks for.
#[derive(Debug, PartialEq, Eq)]
pub enum PacmanOp {
    /// `-S pkg...`: install these packages.
    Install(Vec<String>),
    /// `-R pkg`: remove the package.
    Remove(String),
    /// `-Sy [pkg]`: refresh the databases, then install `pkg` if named.
    Sync(Option<String>),
    /// `-Syu`: upgrade the system and the AUR packages.
    Update,
    /// `-U file`: install a package file.
    Upgrade(String),
    /// `-C` or `--cleanup`: empty the build cache.
    Cleanup,
    /// `-test`.
    Test,
    /// Any other flag: the whole operation is handed to pacman.
    Passthrough(String),
    /// No flag: the whole operation is a search query.
    Search(String),
}

/// The mathematical form of a [`PacmanOp`].
pub enum PacmanOpView {
    Install(Seq<Seq<char>>),
    Remove(Seq<char>),
    Sync(Option<Seq<char>>),
    Update,
    Upgrade(Seq<char>),
    Cleanup,
    Test,
    Passthrough(Seq<char>),
    Search(Seq<char>),
}

impl View for PacmanOp {
    type V = PacmanOpView;

    open spec fn view(&self) -> PacmanOpView {
        match self {
            PacmanOp::Install(p) => PacmanOpView::Install(views(p@)),
            PacmanOp::Remove(p) => PacmanOpView::Remove(p@),
            PacmanOp::Sync(p) => PacmanOpView::Sync(
                match p {
                    Some(q) => Some(q@),
                    None => None,
                },
            ),
            PacmanOp::Update => PacmanOpView::Update,
            PacmanOp::Upgrade(p) => PacmanOpView::Upgrade(p@),
            PacmanOp::Cleanup => PacmanOpView::Cleanup,
            PacmanOp::Test => PacmanOpView::Test,
            PacmanOp::Passthrough(o) => PacmanOpView::Passthrough(o@),
            PacmanOp::Search(o) => PacmanOpView::Search(o@),
        }
    }
}

/// The views of a list of operations.
pub open spec fn op_views(v: Seq<PacmanOp>) -> Seq<PacmanOpView> {
    v.map_values(|o: PacmanOp| o@)
}

/// Whether an argument asks for debug output.
pub open spec fn is_debug_flag(a: Seq<char>) -> bool {
    a == "--debug"@ || a == "-dbg"@
}

/// The arguments that are not debug flags, in order.
pub open spec fn without_debug_flags(args: Seq<Seq<char>>) -> Seq<Seq<char>>
    decreases args.len(),
{
    if args.len() == 0 {
        Seq::empty()
    } else if is_debug_flag(args.last()) {
        without_debug_flags(args.drop_last())
    } else {
        without_debug_flags(args.drop_last()).push(args.last())
    }
}

/// No debug flag is left among the other arguments, and every argument
/// that is not one is kept.
pub proof fn lemma_debug_flags_removed(args: Seq<Seq<char>>)
    ensures
        forall|i: int| 0 <= i < without_debug_flags(args).len() ==> !is_debug_flag(
            #[trigger] without_debug_flags(args)[i],
        ),
        forall|i: int| 0 <= i < args.len() && !is_debug_flag(#[trigger] args[i]) ==> without_debug_flags(args).contains(args[i]),
    decreases args.len(),
{
    if args.len() > 0 {
        let d = args.drop_last();
        lemma_debug_flags_removed(d);
        let w = without_debug_flags(args);
        let wd = without_debug_flags(d);
        assert forall|i: int| 0 <= i < args.len() && !is_debug_flag(#[trigger] args[i]) implies w.contains(args[i]) by {
            if i < args.len() - 1 {
                assert(d[i] == args[i]);
                let k = choose|k: int| 0 <= k < wd.len() && wd[k] == d[i];
                assert(w[k] == wd[k]);
            } else {
                assert(w[w.len() - 1] == args[i]);
            }
        }
    }
}

/// Whether some argument is a debug flag.
pub open spec fn has_debug_flag(args: Seq<Seq<char>>) -> bool {
    exists|i: int| 0 <= i < args.len() && is_debug_flag(#[trigger] args[i])
}

/// Splits the raw arguments into the debug flag (`--debug` or `-dbg`
/// anywhere) and the other arguments, in their order.
pub fn parse_raw_args_for_debug_and_commands(args: &[String]) -> (r: (bool, Vec<String>))
    ensures
        r.0 == has_debug_flag(views(args@)),
        views(r.1@) == without_debug_flags(views(args@)),
{
    let mut debug = false;
    let mut filtered: Vec<String> = Vec::new();
    let n = args.len();
    for i in 0..n
        invariant
            n == args@.len(),
            debug == has_debug_flag(views(args@.take(i as int))),
            views(filtered@) == without_debug_flags(views(args@.take(i as int))),
    {
        let ghost before = args@.take(i as int);
        assert(args@.take(i + 1) == before.push(args@[i as int]));
        assert(views(args@.take(i + 1)).drop_last() == views(before));
        assert(views(args@.take(i + 1)).last() == args@[i as int]@);
        let is_flag = equals(&args[i], "--debug") || equals(&args[i], "-dbg");
        if is_flag {
            debug = true;
        } else {
            let ghost prev = filtered@;
            filtered.push(args[i].clone());
            assert(views(filtered@) == views(prev).push(args@[i as int]@));
        }
        proof {
            let vs = views(args@.take(i + 1));
            if is_flag {
                assert(is_debug_flag(vs[i as int]));
            } else {
                assert forall|k: int| 0 <= k < vs.len() && is_debug_flag(#[trigger] vs[k])
                    implies k < i && is_debug_flag(views(before)[k]) by {}
            }
            if debug && !is_flag {
                let k = choose|k: int| 0 <= k < views(before).len() && is_debug_flag(#[trigger] views(before)[k]);
                assert(is_debug_flag(vs[k]));
            }
        }
    }
    assert(args@.take(n as int) == args@);
    (debug, filtered)
}


/// What one operation asks for, given its words `parts` (at least one)
/// and its text `op`; `None` where it asks for nothing (`-S`, `-R` or `-U`
/// with no package).
pub open spec fn classify_spec(parts: Seq<Seq<char>>, op: Seq<char>) -> Option<PacmanOpView> {
    let flag = parts[0];
    if flag == "-S"@ {
        if parts.len() > 1 { Some(PacmanOpView::Install(parts.skip(1))) } else { None }
    } else if flag == "-R"@ {
        if parts.len() > 1 { Some(PacmanOpView::Remove(parts[1])) } else { None }
    } else if flag == "-Sy"@ {
        Some(PacmanOpView::Sync(if parts.len() > 1 { Some(parts[1]) } else { None }))
    } else if flag == "-Syu"@ {
        Some(PacmanOpView::Update)
    } else if flag == "-U"@ {
        if parts.len() > 1 { Some(PacmanOpView::Upgrade(parts[1])) } else { None }
    } else if flag == "-C"@ || flag == "--cleanup"@ {
        Some(PacmanOpView::Cleanup)
    } else if flag == "-test"@ {
        Some(PacmanOpView::Test)
    } else if flag.len() > 0 && flag[0] == '-' {
        Some(PacmanOpView::Passthrough(op))
    } else {
        Some(PacmanOpView::Search(op))
    }
}

/// The operations that one `???`-separated piece contributes: none when
/// the trimmed piece is blank or asks for nothing, else one.
pub open spec fn piece_ops(piece: Seq<char>) -> Seq<PacmanOpView> {
    let op = trim_spec(piece);
    let parts = words(op);
    if op.len() == 0 || parts.len() == 0 {
        Seq::empty()
    } else {
        match classify_spec(parts, op) {
            Some(o) => seq![o],
            None => Seq::empty(),
        }
    }
}

/// The operations of a list of pieces, in order.
pub open spec fn pieces_ops(pieces: Seq<Seq<char>>) -> Seq<PacmanOpView>
    decreases pieces.len(),
{
    if pieces.len() == 0 {
        Seq::empty()
    } else {
        pieces_ops(pieces.drop_last()) + piece_ops(pieces.last())
    }
}

/// The operations that a joined command line asks for, in order.
pub open spec fn planned_ops(operations: Seq<char>) -> Seq<PacmanOpView> {
    pieces_ops(split_on(operations, "???"@))
}

proof fn lemma_pieces_ops_concat(a: Seq<Seq<char>>, b: Seq<Seq<char>>)
    ensures
        pieces_ops(a + b) == pieces_ops(a) + pieces_ops(b),
    decreases b.len(),
{
    if b.len() == 0 {
        assert(a + b == a);
    } else {
        lemma_pieces_ops_concat(a, b.drop_last());
        assert((a + b).drop_last() == a + b.drop_last());
        assert((a + b).last() == b.last());
    }
}

/// The operations of `x???y` are those of `x` followed by those of `y`,
/// where `x` does not end in `?`.
pub proof fn lemma_planned_ops_concat(x: Seq<char>, y: Seq<char>)
    requires
        !(x.len() > 0 && x.last() == '?'),
    ensures
        planned_ops(x + "???"@ + y) == planned_ops(x) + planned_ops(y),
{
    reveal_strlit("???");
    let sep = "???"@;
    assert(!(x.len() > 0 && sep.contains(x.last()))) by {
        if x.len() > 0 && sep.contains(x.last()) {
            let j = choose|j: int| 0 <= j < sep.len() && sep[j] == x.last();
        }
    }
    lemma_split_on_concat(x, sep, y);
    lemma_pieces_ops_concat(split_on(x, sep), split_on(y, sep));
}

/// The operation that the words `parts` of the operation `op` ask for.
pub fn classify_operation(parts: Vec<String>, op: String) -> (r: Option<PacmanOp>)
    requires
        parts@.len() > 0,
    ensures
        match r {
            Some(o) => classify_spec(views(parts@), op@) == Some(o@),
            None => classify_spec(views(parts@), op@) is None,
        },
{
    let ghost ps = views(parts@);
    let n = parts.len();
    if equals(&parts[0], "-S") {
        if n > 1 {
            let mut rest: Vec<String> = Vec::new();
            let mut k: usize = 1;
            while k < n
                invariant
                    1 <= k <= n == parts@.len(),
                    ps == views(parts@),
                    views(rest@) == ps.subrange(1, k as int),
                decreases n - k,
            {
                let ghost prev = rest@;
                rest.push(parts[k].clone());
                assert(views(rest@) == views(prev).push(parts@[k as int]@));
                assert(ps.subrange(1, k + 1) == ps.subrange(1, k as int).push(ps[k as int]));
                k = k + 1;
            }
            assert(ps.subrange(1, n as int) == ps.skip(1));
            Some(PacmanOp::Install(rest))
        } else {
            None
        }
    } else if equals(&parts[0], "-R") {
        if n > 1 {
            Some(PacmanOp::Remove(parts[1].clone()))
        } else {
            None
        }
    } else if equals(&parts[0], "-Sy") {
        if n > 1 {
            Some(PacmanOp::Sync(Some(parts[1].clone())))
        } else {
            Some(PacmanOp::Sync(None))
        }
    } else if equals(&parts[0], "-Syu") {
        Some(PacmanOp::Update)
    } else if equals(&parts[0], "-U") {
        if n > 1 {
            Some(PacmanOp::Upgrade(parts[1].clone()))
        } else {
            None
        }
    } else if equals(&parts[0], "-C") || equals(&parts[0], "--cleanup") {
        Some(PacmanOp::Cleanup)
    } else if equals(&parts[0], "-test") {
        Some(PacmanOp::Test)
    } else if starts_with_char(parts[0].as_str(), '-') {
        Some(PacmanOp::Passthrough(op))
    } else {
        Some(PacmanOp::Search(op))
    }
}

/// The operations that a joined command line asks for: the pieces between
/// `???` separators, trimmed, each read by [`classify_operation`], blank
/// pieces and pieces that ask for nothing left out.
pub fn plan_pacman_ops(operations: &str) -> (r: Vec<PacmanOp>)
    ensures
        op_views(r@) == planned_ops(operations@),
{
    proof {
        reveal_strlit("???");
    }
    let pieces = split_on_str(operations, "???");
    let ghost ps = views(pieces@);
    let mut r: Vec<PacmanOp> = Vec::new();
    let n = pieces.len();
    for i in 0..n
        invariant
            n == pieces@.len(),
            ps == views(pieces@),
            op_views(r@) == pieces_ops(ps.take(i as int)),
    {
        assert(ps.take(i + 1).drop_last() == ps.take(i as int));
        assert(ps.take(i + 1).last() == pieces@[i as int]@);
        let op = trim(pieces[i].as_str());
        let parts = split_whitespace(op.as_str());
        if op.as_str().unicode_len() > 0 && parts.len() > 0 {
            let ghost prev = r@;
            match classify_operation(parts, op) {
                Some(o) => {
                    r.push(o);
                    assert(op_views(r@) == op_views(prev).push(r@.last()@));
                },
                None => {},
            }
        }
    }
    assert(ps.take(n as int) == ps);
    r
}


/// Whether a rule line is printed after the operation has run: after
/// every operation but a search and a `-Sy` that names no package.
pub fn prints_rule_after(op: &PacmanOp) -> (b: bool)
    ensures
        b == !(op@ is Search || op@ == PacmanOpView::Sync(None)),
{
    match op {
        PacmanOp::Search(_) => false,
        PacmanOp::Sync(None) => false,
        _ => true,
    }
}

/// What each flag asks for: `-S` installs every word after it (at least
/// one), `-R` removes and `-U` installs the word after it, `-Sy` refreshes
/// and installs the word after it if there is one, `-Syu` updates, `-C`
/// and `--cleanup` clean up, `-test` tests; any other word that begins
/// with `-` hands the whole operation to pacman, any other word searches
/// for it; and only `-S`, `-R` or `-U` alone ask for nothing.
pub proof fn lemma_classify_flags(parts: Seq<Seq<char>>, op: Seq<char>)
    requires
        parts.len() > 0,
    ensures
        parts[0] == "-S"@ && parts.len() > 1 ==> classify_spec(parts, op) == Some(
            PacmanOpView::Install(parts.skip(1)),
        ),
        parts[0] == "-S"@ && parts.len() > 1 ==> (classify_spec(parts, op) matches Some(PacmanOpView::Install(ps))
            && ps.len() == parts.len() - 1 && forall|i: int| 0 <= i < ps.len() ==> #[trigger] ps[i] == parts[i + 1]),
        parts[0] == "-R"@ && parts.len() > 1 ==> classify_spec(parts, op) == Some(PacmanOpView::Remove(parts[1])),
        parts[0] == "-Sy"@ ==> classify_spec(parts, op) == Some(
            PacmanOpView::Sync(if parts.len() > 1 { Some(parts[1]) } else { None }),
        ),
        parts[0] == "-Syu"@ ==> classify_spec(parts, op) == Some(PacmanOpView::Update),
        parts[0] == "-U"@ && parts.len() > 1 ==> classify_spec(parts, op) == Some(PacmanOpView::Upgrade(parts[1])),
        parts[0] == "-C"@ || parts[0] == "--cleanup"@ ==> classify_spec(parts, op) == Some(PacmanOpView::Cleanup),
        parts[0] == "-test"@ ==> classify_spec(parts, op) == Some(PacmanOpView::Test),
        classify_spec(parts, op) is None <==> (parts.len() == 1 && (parts[0] == "-S"@ || parts[0] == "-R"@
            || parts[0] == "-U"@)),
        parts[0] != "-S"@ && parts[0] != "-R"@ && parts[0] != "-Sy"@ && parts[0] != "-Syu"@ && parts[0] != "-U"@
            && parts[0] != "-C"@ && parts[0] != "--cleanup"@ && parts[0] != "-test"@ ==> classify_spec(parts, op)
            == Some(if parts[0].len() > 0 && parts[0][0] == '-' {
            PacmanOpView::Passthrough(op)
        } else {
            PacmanOpView::Search(op)
        }),
{
    reveal_strlit("-S");
    reveal_strlit("-R");
    reveal_strlit("-Sy");
    reveal_strlit("-Syu");
    reveal_strlit("-U");
    reveal_strlit("-C");
    reveal_strlit("--cleanup");
    reveal_strlit("-test");
    assert("-R"@[1] != "-S"@[1]);
    assert("-U"@[1] != "-S"@[1] && "-U"@[1] != "-R"@[1]);
    assert("-R"@ != "-S"@);
    assert("-U"@ != "-S"@ && "-U"@ != "-R"@);
}

/// A single package after `-S` is installed: `-S p` asks to install
/// exactly `[p]`.
pub proof fn lemma_install_single(p: Seq<char>, op: Seq<char>)
    ensures
        classify_spec(seq!["-S"@, p], op) == Some(PacmanOpView::Install(seq![p])),
{
    lemma_classify_flags(seq!["-S"@, p], op);
    assert(seq!["-S"@, p].skip(1) == seq![p]);
}

/// A piece whose first word is `-S`, followed by at least one more word,
/// contributes exactly one operation: installing the words after `-S`.
pub proof fn lemma_piece_installs(piece: Seq<char>)
    requires
        words(trim_spec(piece)).len() > 1,
        words(trim_spec(piece))[0] == "-S"@,
    ensures
        piece_ops(piece) == seq![PacmanOpView::Install(words(trim_spec(piece)).skip(1))],
{
    let op = trim_spec(piece);
    assert(op.len() > 0);
    lemma_classify_flags(words(op), op);
}

/// An argument sets debug exactly when it is `--debug` or `-dbg`; every
/// other argument (such as `--cleanup`) is kept, in order, and no
/// `--debug` or `-dbg` is kept.
pub proof fn lemma_debug_flags_exact(args: Seq<Seq<char>>)
    ensures
        has_debug_flag(args) <==> exists|i: int| 0 <= i < args.len() && (#[trigger] args[i] == "--debug"@ || args[i] == "-dbg"@),
        forall|i: int| 0 <= i < args.len() && args[i] != "--debug"@ && args[i] != "-dbg"@
            ==> without_debug_flags(args).contains(#[trigger] args[i]),
        forall|i: int| 0 <= i < without_debug_flags(args).len() ==> (#[trigger] without_debug_flags(args)[i]) != "--debug"@
            && without_debug_flags(args)[i] != "-dbg"@,
        !is_debug_flag("--cleanup"@),
        without_debug_flags(seq!["--cleanup"@]) == seq!["--cleanup"@],
{
    reveal_strlit("--cleanup");
    reveal_strlit("--debug");
    reveal_strlit("-dbg");
    lemma_debug_flags_removed(args);
    assert forall|i: int| 0 <= i < args.len() && args[i] != "--debug"@ && args[i] != "-dbg"@
        implies without_debug_flags(args).contains(#[trigger] args[i]) by {
        assert(!is_debug_flag(args[i]));
    }
    assert forall|i: int| 0 <= i < without_debug_flags(args).len() implies (#[trigger] without_debug_flags(args)[i]) != "--debug"@
        && without_debug_flags(args)[i] != "-dbg"@ by {
        assert(!is_debug_flag(without_debug_flags(args)[i]));
    }
    assert("--cleanup"@.len() != "--debug"@.len() && "--cleanup"@.len() != "-dbg"@.len());
    assert(!is_debug_flag("--cleanup"@));
    let one = seq!["--cleanup"@];
    assert(one.drop_last().len() == 0);
    assert(without_debug_flags(one) == without_debug_flags(one.drop_last()).push("--cleanup"@));
}

} // verus!
