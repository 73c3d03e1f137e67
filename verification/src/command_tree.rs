//! `self tree` and `self list`: the program's commands as a tree drawn with
//! box characters, or as a flat list of command paths, with their arguments.

use vstd::prelude::*;
use vstd::string::*;
use crate::local::{trim_text, trimmed};
use crate::text::{join_spec, join_texts, str_eq};

verus! {

/// An argument of a command, as the command-line parser describes it.
pub struct ArgSpec {
    pub id: String,
    pub short: Option<char>,
    pub long: Option<String>,
    pub takes_values: bool,
    pub required: bool,
    pub multiple: bool,
}

/// A command, its arguments and its subcommands, as the parser describes
/// them.
pub struct CommandNode {
    pub name: String,
    pub about: String,
    pub aliases: Vec<String>,
    pub args: Vec<ArgSpec>,
    pub subcommands: Vec<CommandNode>,
    pub hidden: bool,
    pub subcommand_required: bool,
}

/// How an argument is shown, before the brackets of an optional one: an
/// option with a value as `-s <id>` or `--long <id>`, a positional one as
/// `<id>` (with `...` when it takes several values), a flag as `--long` or
/// `-s`.
pub open spec fn arg_body(a: ArgSpec) -> Seq<char> {
    if a.takes_values {
        match a.short {
            Some(c) => "-"@ + seq![c] + " <"@ + a.id@ + ">"@,
            None => match a.long {
                Some(l) => "--"@ + l@ + " <"@ + a.id@ + ">"@,
                None => if a.multiple {
                    "<"@ + a.id@ + ">..."@
                } else {
                    "<"@ + a.id@ + ">"@
                },
            },
        }
    } else {
        match a.long {
            Some(l) => "--"@ + l@,
            None => "-"@ + seq![a.short->Some_0],
        }
    }
}

/// How an argument is shown: in brackets when it is optional.
pub open spec fn arg_text(a: ArgSpec) -> Seq<char> {
    if a.required {
        arg_body(a)
    } else {
        "["@ + arg_body(a) + "]"@
    }
}

/// Whether an argument is shown: all but `help` and `version`.
pub open spec fn arg_shown(a: ArgSpec) -> bool {
    a.id@ != "help"@ && a.id@ != "version"@
}

/// The texts of the shown arguments, in order.
pub open spec fn shown_arg_texts(args: Seq<ArgSpec>) -> Seq<Seq<char>>
    decreases args.len(),
{
    if args.len() == 0 {
        seq![]
    } else if arg_shown(args.last()) {
        shown_arg_texts(args.drop_last()).push(arg_text(args.last()))
    } else {
        shown_arg_texts(args.drop_last())
    }
}

/// The arguments of a command as they follow its name: a space and the
/// shown arguments separated by spaces, or nothing.
pub open spec fn args_text(args: Seq<ArgSpec>) -> Seq<char> {
    if shown_arg_texts(args).len() == 0 {
        Seq::empty()
    } else {
        " "@ + join_spec(shown_arg_texts(args), " "@)
    }
}

/// A flag without a long name has a short one, so that it can be shown.
pub open spec fn arg_ok(a: ArgSpec) -> bool {
    !a.takes_values && a.long is None ==> a.short is Some
}

/// Every argument of every command of the tree can be shown.
pub open spec fn tree_ok(n: CommandNode) -> bool
    decreases n,
{
    &&& forall|i: int| 0 <= i < n.args@.len() ==> arg_ok(#[trigger] n.args@[i])
    &&& forall|i: int| 0 <= i < n.subcommands@.len() ==> tree_ok(#[trigger] n.subcommands@[i])
}

/// Whether every argument of every command of the tree can be shown, which
/// the tree and list renderings ask of their input.
pub fn tree_is_ok(n: &CommandNode) -> (res: bool)
    ensures
        res == tree_ok(*n),
    decreases n,
{
    let mut i: usize = 0;
    while i < n.args.len()
        invariant
            i <= n.args@.len(),
            forall|j: int| 0 <= j < i ==> arg_ok(#[trigger] n.args@[j]),
        decreases n.args@.len() - i,
    {
        let a = &n.args[i];
        if !a.takes_values && a.long.is_none() && a.short.is_none() {
            return false;
        }
        i = i + 1;
    }
    let mut k: usize = 0;
    while k < n.subcommands.len()
        invariant
            k <= n.subcommands@.len(),
            forall|j: int| 0 <= j < n.args@.len() ==> arg_ok(#[trigger] n.args@[j]),
            forall|j: int| 0 <= j < k ==> tree_ok(#[trigger] n.subcommands@[j]),
        decreases n.subcommands@.len() - k,
    {
        if !tree_is_ok(&n.subcommands[k]) {
            return false;
        }
        k = k + 1;
    }
    true
}

fn arg_display(a: &ArgSpec) -> (res: String)
    requires
        arg_ok(*a),
    ensures
        res@ == arg_text(*a),
{
    let mut body = String::new();
    if a.takes_values {
        match a.short {
            Some(c) => {
                body.append("-");
                body.append(char_text(c).as_str());
                body.append(" <");
                body.append(a.id.as_str());
                body.append(">");
            },
            None => match &a.long {
                Some(l) => {
                    body.append("--");
                    body.append(l.as_str());
                    body.append(" <");
                    body.append(a.id.as_str());
                    body.append(">");
                },
                None => {
                    body.append("<");
                    body.append(a.id.as_str());
                    if a.multiple {
                        body.append(">...");
                    } else {
                        body.append(">");
                    }
                },
            },
        }
    } else {
        match &a.long {
            Some(l) => {
                body.append("--");
                body.append(l.as_str());
            },
            None => {
                body.append("-");
                let c = match a.short {
                    Some(c) => c,
                    None => ' ',
                };
                body.append(char_text(c).as_str());
            },
        }
    }
    assert(body@ =~= arg_body(*a));
    if a.required {
        body
    } else {
        let mut s = "[".to_owned();
        s.append(body.as_str());
        s.append("]");
        s
    }
}

/// Calls `char::to_string`, which makes a one-character text.
#[verifier::external_body]
fn char_text(c: char) -> (res: String)
    ensures
        res@ == seq![c],
{
    c.to_string()
}

/// The arguments of a command as they follow its name.
pub fn format_args(args: &Vec<ArgSpec>) -> (res: String)
    requires
        forall|i: int| 0 <= i < args@.len() ==> arg_ok(#[trigger] args@[i]),
    ensures
        res@ == args_text(args@),
{
    let n = args.len();
    let mut texts: Vec<String> = Vec::new();
    let mut i: usize = 0;
    while i < n
        invariant
            n == args@.len(),
            i <= n,
            forall|k: int| 0 <= k < args@.len() ==> arg_ok(#[trigger] args@[k]),
            texts@.map_values(|t: String| t@) == shown_arg_texts(args@.take(i as int)),
        decreases n - i,
    {
        proof {
            assert(args@.take(i + 1).drop_last() =~= args@.take(i as int));
            assert(args@.take(i + 1).last() == args@[i as int]);
        }
        let a = &args[i];
        if !str_eq(a.id.as_str(), "help") && !str_eq(a.id.as_str(), "version") {
            let ghost before = texts@;
            texts.push(arg_display(a));
            assert(texts@.map_values(|t: String| t@) =~= before.map_values(|t: String| t@).push(arg_text(*a)));
        }
        i = i + 1;
    }
    assert(args@.take(n as int) =~= args@);
    if texts.len() == 0 {
        String::new()
    } else {
        let mut refs: Vec<&str> = Vec::new();
        let mut k: usize = 0;
        while k < texts.len()
            invariant
                k <= texts@.len(),
                refs@.len() == k,
                forall|j: int| 0 <= j < k ==> (#[trigger] refs@[j])@ == texts@[j]@,
            decreases texts@.len() - k,
        {
            refs.push(texts[k].as_str());
            k = k + 1;
        }
        assert(refs@.map_values(|p: &str| p@) =~= texts@.map_values(|t: String| t@));
        let joined = join_texts(&refs, " ");
        let mut s = " ".to_owned();
        s.append(joined.as_str());
        s
    }
}

/// Whether the text `a` comes before `b` in the order of `str`: by the first
/// character where they differ, a text before its extensions.
pub open spec fn text_less(a: Seq<char>, b: Seq<char>) -> bool
    decreases a.len(),
{
    if a.len() == 0 {
        b.len() > 0
    } else if b.len() == 0 {
        false
    } else if a[0] != b[0] {
        (a[0] as u32) < (b[0] as u32)
    } else {
        text_less(a.drop_first(), b.drop_first())
    }
}

/// Whether the text `a` comes before `b`.
pub fn str_less(a: &str, b: &str) -> (res: bool)
    ensures
        res == text_less(a@, b@),
{
    let n = a.unicode_len();
    let m = b.unicode_len();
    let mut i: usize = 0;
    assert(a@.skip(0) =~= a@);
    assert(b@.skip(0) =~= b@);
    while i < n && i < m
        invariant
            n == a@.len(),
            m == b@.len(),
            i <= n,
            i <= m,
            text_less(a@, b@) == text_less(a@.skip(i as int), b@.skip(i as int)),
        decreases n - i,
    {
        let x = a.get_char(i);
        let y = b.get_char(i);
        proof {
            assert(a@.skip(i as int)[0] == x);
            assert(b@.skip(i as int)[0] == y);
            assert(a@.skip(i as int).drop_first() =~= a@.skip(i + 1));
            assert(b@.skip(i as int).drop_first() =~= b@.skip(i + 1));
        }
        if x != y {
            return (x as u32) < (y as u32);
        }
        i = i + 1;
    }
    i == n && i < m
}

/// Whether a subcommand is listed: all but hidden ones and `help`.
pub open spec fn listed(c: CommandNode) -> bool {
    !c.hidden && c.name@ != "help"@
}

/// `order` (positions in `cs`, in name order) with `j` put after every
/// position whose command's name does not come after that of `j`.
pub open spec fn insert_by_name(order: Seq<int>, cs: Seq<CommandNode>, j: int) -> Seq<int>
    decreases order.len(),
{
    if order.len() == 0 {
        seq![j]
    } else if text_less(cs[j].name@, cs[order.last()].name@) {
        insert_by_name(order.drop_last(), cs, j).push(order.last())
    } else {
        order.push(j)
    }
}

/// The positions of the listed commands among the first `k` of `cs`, in the
/// order of their names; commands with equal names in their order in `cs`.
pub open spec fn listed_order(cs: Seq<CommandNode>, k: int) -> Seq<int>
    decreases k,
{
    if k <= 0 {
        seq![]
    } else if listed(cs[k - 1]) {
        insert_by_name(listed_order(cs, k - 1), cs, k - 1)
    } else {
        listed_order(cs, k - 1)
    }
}

/// The positions of the listed subcommands of `cs` in name order.
pub open spec fn children_order(cs: Seq<CommandNode>) -> Seq<int> {
    listed_order(cs, cs.len() as int)
}

proof fn lemma_insert_split(order: Seq<int>, cs: Seq<CommandNode>, j: int, p: int)
    requires
        0 <= p <= order.len(),
        forall|q: int| p <= q < order.len() ==> text_less(cs[j].name@, #[trigger] cs[order[q]].name@),
    ensures
        insert_by_name(order, cs, j) == insert_by_name(order.take(p), cs, j) + order.skip(p),
    decreases order.len() - p,
{
    if p < order.len() {
        lemma_insert_split(order.drop_last(), cs, j, p);
        assert(order.drop_last().take(p) =~= order.take(p));
        assert(order.drop_last().skip(p).push(order.last()) =~= order.skip(p));
    } else {
        assert(order.take(p) =~= order);
        assert(order.skip(p) =~= Seq::<int>::empty());
    }
}

proof fn lemma_listed_order_range(cs: Seq<CommandNode>, k: int)
    requires
        0 <= k <= cs.len(),
    ensures
        forall|q: int| 0 <= q < listed_order(cs, k).len() ==> 0 <= #[trigger] listed_order(cs, k)[q] < k,
        listed_order(cs, k).len() <= k,
    decreases k,
{
    if k > 0 {
        lemma_listed_order_range(cs, k - 1);
        if listed(cs[k - 1]) {
            lemma_insert_contents(listed_order(cs, k - 1), cs, k - 1);
        }
    }
}

proof fn lemma_insert_contents(order: Seq<int>, cs: Seq<CommandNode>, j: int)
    ensures
        insert_by_name(order, cs, j).len() == order.len() + 1,
        forall|q: int|
            0 <= q < insert_by_name(order, cs, j).len() ==> (#[trigger] insert_by_name(order, cs, j)[q] == j
                || order.contains(insert_by_name(order, cs, j)[q])),
    decreases order.len(),
{
    if order.len() > 0 {
        lemma_insert_contents(order.drop_last(), cs, j);
        let r = insert_by_name(order, cs, j);
        if text_less(cs[j].name@, cs[order.last()].name@) {
            assert forall|q: int| 0 <= q < r.len() implies (#[trigger] r[q] == j || order.contains(r[q])) by {
                if q < r.len() - 1 {
                    let s = insert_by_name(order.drop_last(), cs, j);
                    assert(r[q] == s[q]);
                    if s[q] != j {
                        let w = choose|w: int| 0 <= w < order.drop_last().len() && order.drop_last()[w] == s[q];
                        assert(order[w] == s[q]);
                    }
                } else {
                    assert(r[q] == order[order.len() - 1]);
                }
            }
        } else {
            assert forall|q: int| 0 <= q < r.len() implies (#[trigger] r[q] == j || order.contains(r[q])) by {
                if q < order.len() {
                    assert(r[q] == order[q]);
                }
            }
        }
    }
}

/// The positions of the listed subcommands of `cs` in name order.
pub fn subcommand_order(cs: &Vec<CommandNode>) -> (res: Vec<usize>)
    ensures
        res@.map_values(|i: usize| i as int) == children_order(cs@),
        forall|q: int| 0 <= q < res@.len() ==> #[trigger] res@[q] < cs@.len(),
{
    let n = cs.len();
    let mut order: Vec<usize> = Vec::new();
    let mut j: usize = 0;
    while j < n
        invariant
            n == cs@.len(),
            j <= n,
            order@.map_values(|i: usize| i as int) == listed_order(cs@, j as int),
            forall|q: int| 0 <= q < order@.len() ==> #[trigger] order@[q] < j,
        decreases n - j,
    {
        let c = &cs[j];
        if !c.hidden && !str_eq(c.name.as_str(), "help") {
            let ghost o = order@.map_values(|i: usize| i as int);
            let mut p: usize = order.len();
            while p > 0 && str_less(cs[j].name.as_str(), cs[order[p - 1]].name.as_str())
                invariant
                    n == cs@.len(),
                    j < n,
                    p <= order@.len(),
                    o == order@.map_values(|i: usize| i as int),
                    forall|q: int| 0 <= q < order@.len() ==> #[trigger] order@[q] < j,
                    forall|q: int| p <= q < o.len() ==> text_less(cs@[j as int].name@, #[trigger] cs@[o[q]].name@),
                decreases p,
            {
                p = p - 1;
            }
            proof {
                lemma_insert_split(o, cs@, j as int, p as int);
                if p > 0 {
                    assert(o.take(p as int).drop_last() =~= o.take(p - 1));
                    assert(o.take(p as int).last() == o[p - 1]);
                } else {
                    assert(o.take(0) =~= Seq::<int>::empty());
                }
                assert(insert_by_name(o.take(p as int), cs@, j as int) =~= o.take(p as int).push(j as int));
            }
            order.insert(p, j);
            proof {
                assert(order@.map_values(|i: usize| i as int) =~= o.take(p as int).push(j as int) + o.skip(
                    p as int,
                ));
            }
        }
        j = j + 1;
    }
    order
}

proof fn lemma_text_less_irreflexive(a: Seq<char>)
    ensures
        !text_less(a, a),
    decreases a.len(),
{
    if a.len() > 0 {
        lemma_text_less_irreflexive(a.drop_first());
    }
}

proof fn lemma_text_less_total(a: Seq<char>, b: Seq<char>)
    ensures
        a == b || text_less(a, b) || text_less(b, a),
    decreases a.len(),
{
    if a.len() > 0 && b.len() > 0 && a[0] == b[0] {
        lemma_text_less_total(a.drop_first(), b.drop_first());
        if a.drop_first() == b.drop_first() {
            assert(a =~= seq![a[0]] + a.drop_first());
            assert(b =~= seq![b[0]] + b.drop_first());
        }
    } else if a.len() == 0 && b.len() == 0 {
        assert(a =~= b);
    } else if a.len() > 0 && b.len() > 0 {
        vstd::utf8::char_u32_cast(a[0], a[0] as u32);
        vstd::utf8::char_u32_cast(b[0], b[0] as u32);
    }
}

proof fn lemma_text_less_transitive(a: Seq<char>, b: Seq<char>, c: Seq<char>)
    requires
        text_less(a, b),
        text_less(b, c),
    ensures
        text_less(a, c),
    decreases a.len(),
{
    if a.len() > 0 && b.len() > 0 && c.len() > 0 && a[0] == b[0] && b[0] == c[0] {
        lemma_text_less_transitive(a.drop_first(), b.drop_first(), c.drop_first());
    }
}

proof fn lemma_text_less_asymmetric(a: Seq<char>, b: Seq<char>)
    requires
        text_less(a, b),
    ensures
        !text_less(b, a),
{
    if text_less(b, a) {
        lemma_text_less_transitive(a, b, a);
        lemma_text_less_irreflexive(a);
    }
}

/// `c` does not come before `a` when `b` does not come before `a` and `c`
/// does not come before `b`.
proof fn lemma_not_less_transitive(a: Seq<char>, b: Seq<char>, c: Seq<char>)
    requires
        !text_less(b, a),
        !text_less(c, b),
    ensures
        !text_less(c, a),
{
    lemma_text_less_total(a, b);
    if text_less(c, a) {
        if a != b {
            lemma_text_less_transitive(c, a, b);
        }
    }
}

/// The positions `order` list the commands of `cs` in name order.
pub open spec fn in_name_order(cs: Seq<CommandNode>, order: Seq<int>) -> bool {
    forall|p: int, q: int| 0 <= p < q < order.len() ==> !text_less(cs[#[trigger] order[q]].name@, cs[#[trigger] order[p]].name@)
}

proof fn lemma_insert_keeps_order(order: Seq<int>, cs: Seq<CommandNode>, j: int)
    requires
        in_name_order(cs, order),
    ensures
        in_name_order(cs, insert_by_name(order, cs, j)),
    decreases order.len(),
{
    let r = insert_by_name(order, cs, j);
    if order.len() > 0 {
        let last = order.last();
        let d = order.drop_last();
        assert(in_name_order(cs, d)) by {
            assert forall|p: int, q: int| 0 <= p < q < d.len() implies !text_less(cs[#[trigger] d[q]].name@, cs[#[trigger] d[p]].name@) by {
                assert(d[p] == order[p] && d[q] == order[q]);
            }
        }
        if text_less(cs[j].name@, cs[last].name@) {
            lemma_insert_keeps_order(d, cs, j);
            lemma_insert_contents(d, cs, j);
            let ri = insert_by_name(d, cs, j);
            assert(r == ri.push(last));
            assert forall|p: int, q: int| 0 <= p < q < r.len() implies !text_less(cs[#[trigger] r[q]].name@, cs[#[trigger] r[p]].name@) by {
                if q < ri.len() {
                    assert(r[p] == ri[p] && r[q] == ri[q]);
                } else {
                    assert(r[q] == last);
                    assert(r[p] == ri[p]);
                    if ri[p] == j {
                        lemma_text_less_asymmetric(cs[j].name@, cs[last].name@);
                    } else {
                        let w = choose|w: int| 0 <= w < d.len() && d[w] == ri[p];
                        assert(order[w] == d[w]);
                        assert(order[order.len() - 1] == last);
                    }
                }
            }
        } else {
            assert(r == order.push(j));
            assert forall|p: int, q: int| 0 <= p < q < r.len() implies !text_less(cs[#[trigger] r[q]].name@, cs[#[trigger] r[p]].name@) by {
                if q < order.len() {
                    assert(r[p] == order[p] && r[q] == order[q]);
                } else {
                    assert(r[q] == j);
                    assert(r[p] == order[p]);
                    if p < order.len() - 1 {
                        assert(order[order.len() - 1] == last);
                        lemma_not_less_transitive(cs[order[p]].name@, cs[last].name@, cs[j].name@);
                    }
                }
            }
        }
    }
}

proof fn lemma_listed_order_sorted(cs: Seq<CommandNode>, k: int)
    ensures
        in_name_order(cs, listed_order(cs, k)),
    decreases k,
{
    if k > 0 {
        lemma_listed_order_sorted(cs, k - 1);
        if listed(cs[k - 1]) {
            lemma_insert_keeps_order(listed_order(cs, k - 1), cs, k - 1);
        }
    }
}

/// `self tree` and `self list` show the subcommands of a command in the
/// order of their names: no listed subcommand comes after one whose name
/// comes later.
pub proof fn lemma_children_in_name_order(cs: Seq<CommandNode>)
    ensures
        in_name_order(cs, children_order(cs)),
{
    lemma_listed_order_sorted(cs, cs.len() as int);
}

/// The text that follows a command's name for its aliases.
pub open spec fn alias_text(aliases: Seq<Seq<char>>) -> Seq<char> {
    if aliases.len() == 0 {
        Seq::empty()
    } else {
        " (alias: "@ + join_spec(aliases, ", "@) + ")"@
    }
}

/// The texts of a command's aliases.
pub open spec fn aliases_of(n: CommandNode) -> Seq<Seq<char>> {
    n.aliases@.map_values(|a: String| a@)
}

/// The line of a command in the tree: the root shows its name and arguments;
/// a subcommand, after the prefix of its depth and its branch, its name,
/// aliases, arguments and, when it has one, its description.
pub open spec fn tree_line(n: CommandNode, prefix: Seq<char>, is_last: bool) -> Seq<char> {
    if prefix.len() == 0 {
        n.name@ + args_text(n.args@)
    } else {
        let connector = if is_last {
            "\u{2514}\u{2500}\u{2500} "@
        } else {
            "\u{251c}\u{2500}\u{2500} "@
        };
        let line = prefix + connector + n.name@ + alias_text(aliases_of(n)) + args_text(n.args@);
        if n.about@.len() > 0 {
            line + " - "@ + trimmed(n.about@)
        } else {
            line
        }
    }
}

/// The prefix of the subcommands of a command drawn with `prefix`.
pub open spec fn next_prefix(prefix: Seq<char>, is_last: bool) -> Seq<char> {
    if is_last {
        prefix + "    "@
    } else {
        prefix + "\u{2502}   "@
    }
}

/// The lines of the tree under `n`, drawn with `prefix`.
pub open spec fn tree_lines(n: CommandNode, prefix: Seq<char>, is_last: bool) -> Seq<Seq<char>>
    decreases n, n.subcommands@.len() + 1,
{
    seq![tree_line(n, prefix, is_last)] + subtree_lines(
        n,
        children_order(n.subcommands@),
        next_prefix(prefix, is_last),
        children_order(n.subcommands@).len() as int,
    )
}

/// The lines of the subcommands of `n` at the positions `order`, the last of
/// all `total` of them drawn as the last branch.
pub open spec fn subtree_lines(n: CommandNode, order: Seq<int>, prefix: Seq<char>, total: int) -> Seq<Seq<char>>
    decreases n,
        if order.len() <= n.subcommands@.len() {
            order.len() as int
        } else {
            0
        },
{
    if order.len() == 0 || order.len() > n.subcommands@.len() {
        seq![]
    } else {
        let j = order.last();
        let before = subtree_lines(n, order.drop_last(), prefix, total);
        if 0 <= j < n.subcommands@.len() {
            before + tree_lines(n.subcommands@[j], prefix, order.len() == total)
        } else {
            before
        }
    }
}

fn alias_display(n: &CommandNode) -> (res: String)
    ensures
        res@ == alias_text(aliases_of(*n)),
{
    if n.aliases.len() == 0 {
        String::new()
    } else {
        let mut refs: Vec<&str> = Vec::new();
        let mut k: usize = 0;
        while k < n.aliases.len()
            invariant
                k <= n.aliases@.len(),
                refs@.len() == k,
                forall|j: int| 0 <= j < k ==> (#[trigger] refs@[j])@ == n.aliases@[j]@,
            decreases n.aliases@.len() - k,
        {
            refs.push(n.aliases[k].as_str());
            k = k + 1;
        }
        assert(refs@.map_values(|p: &str| p@) =~= aliases_of(*n));
        let joined = join_texts(&refs, ", ");
        let mut s = " (alias: ".to_owned();
        s.append(joined.as_str());
        s.append(")");
        s
    }
}

fn tree_line_text(n: &CommandNode, prefix: &str, is_last: bool) -> (res: String)
    requires
        tree_ok(*n),
    ensures
        res@ == tree_line(*n, prefix@, is_last),
{
    let args = format_args(&n.args);
    if prefix.unicode_len() == 0 {
        let mut s = n.name.clone();
        s.append(args.as_str());
        s
    } else {
        let mut s = prefix.to_owned();
        if is_last {
            s.append("\u{2514}\u{2500}\u{2500} ");
        } else {
            s.append("\u{251c}\u{2500}\u{2500} ");
        }
        s.append(n.name.as_str());
        let aliases = alias_display(n);
        s.append(aliases.as_str());
        s.append(args.as_str());
        if n.about.as_str().unicode_len() > 0 {
            s.append(" - ");
            s.append(trim_text(n.about.as_str()));
        }
        s
    }
}

fn push_lines(out: &mut Vec<String>, n: &CommandNode, prefix: &str, is_last: bool)
    requires
        tree_ok(*n),
    ensures
        final(out)@.map_values(|l: String| l@) == old(out)@.map_values(|l: String| l@) + tree_lines(
            *n,
            prefix@,
            is_last,
        ),
    decreases n,
{
    let ghost start = out@.map_values(|l: String| l@);
    out.push(tree_line_text(n, prefix, is_last));
    let mut child_prefix = prefix.to_owned();
    if is_last {
        child_prefix.append("    ");
    } else {
        child_prefix.append("\u{2502}   ");
    }
    let order = subcommand_order(&n.subcommands);
    let ghost ord = order@.map_values(|i: usize| i as int);
    proof {
        lemma_listed_order_range(n.subcommands@, n.subcommands@.len() as int);
        assert(out@.map_values(|l: String| l@) =~= start + seq![tree_line(*n, prefix@, is_last)]);
    }
    let total = order.len();
    let mut k: usize = 0;
    while k < total
        invariant
            total == order@.len(),
            ord == order@.map_values(|i: usize| i as int),
            ord == children_order(n.subcommands@),
            ord.len() <= n.subcommands@.len(),
            forall|q: int| 0 <= q < order@.len() ==> #[trigger] order@[q] < n.subcommands@.len(),
            tree_ok(*n),
            k <= total,
            out@.map_values(|l: String| l@) == start + seq![tree_line(*n, prefix@, is_last)] + subtree_lines(
                *n,
                ord.take(k as int),
                next_prefix(prefix@, is_last),
                total as int,
            ),
            child_prefix@ == next_prefix(prefix@, is_last),
        decreases total - k,
    {
        let j = order[k];
        proof {
            assert(ord.take(k + 1).drop_last() =~= ord.take(k as int));
            assert(ord.take(k + 1).last() == j as int);
            assert(tree_ok(n.subcommands@[j as int]));
        }
        let ghost before = out@.map_values(|l: String| l@);
        push_lines(out, &n.subcommands[j], child_prefix.as_str(), k + 1 == total);
        proof {
            assert(before + tree_lines(n.subcommands@[j as int], child_prefix@, k + 1 == total) =~= start
                + seq![tree_line(*n, prefix@, is_last)] + subtree_lines(
                *n,
                ord.take(k + 1),
                next_prefix(prefix@, is_last),
                total as int,
            ));
        }
        k = k + 1;
    }
    proof {
        assert(ord.take(total as int) =~= ord);
    }
}

/// The lines of `self tree`: the tree of `root`'s listed subcommands, sorted
/// by name at each level.
pub fn command_tree_lines(root: &CommandNode) -> (res: Vec<String>)
    requires
        tree_ok(*root),
    ensures
        res@.map_values(|l: String| l@) == tree_lines(*root, Seq::empty(), true),
{
    let mut out: Vec<String> = Vec::new();
    proof {
        reveal_strlit("");
    }
    push_lines(&mut out, root, "", true);
    assert(out@.map_values(|l: String| l@) =~= tree_lines(*root, ""@, true));
    out
}

/// Whether `self list` shows a command: a leaf, or one that runs without a
/// subcommand.
pub open spec fn runnable(n: CommandNode) -> bool {
    children_order(n.subcommands@).len() == 0 || !n.subcommand_required
}

/// The line of a command in the list: its path from the root, its aliases,
/// arguments and, when it has one, its description.
pub open spec fn list_line(n: CommandNode, path: Seq<Seq<char>>) -> Seq<char> {
    let line = join_spec(path.push(n.name@), " "@) + alias_text(aliases_of(n)) + args_text(n.args@);
    if n.about@.len() > 0 {
        line + " - "@ + trimmed(n.about@)
    } else {
        line
    }
}

/// The lines of the list under `n`, whose ancestors are named `path`.
pub open spec fn list_lines(n: CommandNode, path: Seq<Seq<char>>) -> Seq<Seq<char>>
    decreases n, n.subcommands@.len() + 1,
{
    (if runnable(n) {
        seq![list_line(n, path)]
    } else {
        seq![]
    }) + sublist_lines(n, children_order(n.subcommands@), path.push(n.name@))
}

/// The lines of the list under the subcommands of `n` at the positions
/// `order`.
pub open spec fn sublist_lines(n: CommandNode, order: Seq<int>, path: Seq<Seq<char>>) -> Seq<Seq<char>>
    decreases n,
        if order.len() <= n.subcommands@.len() {
            order.len() as int
        } else {
            0
        },
{
    if order.len() == 0 || order.len() > n.subcommands@.len() {
        seq![]
    } else {
        let j = order.last();
        let before = sublist_lines(n, order.drop_last(), path);
        if 0 <= j < n.subcommands@.len() {
            before + list_lines(n.subcommands@[j], path)
        } else {
            before
        }
    }
}

fn list_line_text(n: &CommandNode, path: &Vec<String>) -> (res: String)
    requires
        tree_ok(*n),
    ensures
        res@ == list_line(*n, path@.map_values(|p: String| p@)),
{
    let mut refs: Vec<&str> = Vec::new();
    let mut k: usize = 0;
    while k < path.len()
        invariant
            k <= path@.len(),
            refs@.len() == k,
            forall|j: int| 0 <= j < k ==> (#[trigger] refs@[j])@ == path@[j]@,
        decreases path@.len() - k,
    {
        refs.push(path[k].as_str());
        k = k + 1;
    }
    refs.push(n.name.as_str());
    assert(refs@.map_values(|p: &str| p@) =~= path@.map_values(|p: String| p@).push(n.name@));
    let mut s = join_texts(&refs, " ");
    let aliases = alias_display(n);
    let args = format_args(&n.args);
    s.append(aliases.as_str());
    s.append(args.as_str());
    if n.about.as_str().unicode_len() > 0 {
        s.append(" - ");
        s.append(trim_text(n.about.as_str()));
    }
    s
}

fn push_list_lines(out: &mut Vec<String>, n: &CommandNode, path: &Vec<String>)
    requires
        tree_ok(*n),
    ensures
        final(out)@.map_values(|l: String| l@) == old(out)@.map_values(|l: String| l@) + list_lines(
            *n,
            path@.map_values(|p: String| p@),
        ),
    decreases n,
{
    let ghost start = out@.map_values(|l: String| l@);
    let ghost pv = path@.map_values(|p: String| p@);
    let order = subcommand_order(&n.subcommands);
    let ghost ord = order@.map_values(|i: usize| i as int);
    proof {
        lemma_listed_order_range(n.subcommands@, n.subcommands@.len() as int);
    }
    if order.len() == 0 || !n.subcommand_required {
        out.push(list_line_text(n, path));
    }
    let ghost head = out@.map_values(|l: String| l@);
    assert(head =~= start + (if runnable(*n) {
        seq![list_line(*n, pv)]
    } else {
        seq![]
    }));
    let mut current: Vec<String> = Vec::new();
    let mut c: usize = 0;
    while c < path.len()
        invariant
            c <= path@.len(),
            current@.len() == c,
            forall|j: int| 0 <= j < c ==> (#[trigger] current@[j])@ == path@[j]@,
        decreases path@.len() - c,
    {
        current.push(path[c].clone());
        c = c + 1;
    }
    current.push(n.name.clone());
    assert(current@.map_values(|p: String| p@) =~= pv.push(n.name@));
    let total = order.len();
    let mut k: usize = 0;
    while k < total
        invariant
            total == order@.len(),
            ord == order@.map_values(|i: usize| i as int),
            ord == children_order(n.subcommands@),
            ord.len() <= n.subcommands@.len(),
            forall|q: int| 0 <= q < order@.len() ==> #[trigger] order@[q] < n.subcommands@.len(),
            tree_ok(*n),
            k <= total,
            current@.map_values(|p: String| p@) == pv.push(n.name@),
            out@.map_values(|l: String| l@) == head + sublist_lines(*n, ord.take(k as int), pv.push(n.name@)),
        decreases total - k,
    {
        let j = order[k];
        proof {
            assert(ord.take(k + 1).drop_last() =~= ord.take(k as int));
            assert(ord.take(k + 1).last() == j as int);
            assert(tree_ok(n.subcommands@[j as int]));
        }
        let ghost before = out@.map_values(|l: String| l@);
        push_list_lines(out, &n.subcommands[j], &current);
        proof {
            assert(before + list_lines(n.subcommands@[j as int], pv.push(n.name@)) =~= head + sublist_lines(
                *n,
                ord.take(k + 1),
                pv.push(n.name@),
            ));
        }
        k = k + 1;
    }
    proof {
        assert(ord.take(total as int) =~= ord);
    }
}

/// The lines of `self list`: every command that can run, by its full path,
/// subcommands sorted by name at each level.
pub fn command_list_lines(root: &CommandNode) -> (res: Vec<String>)
    requires
        tree_ok(*root),
    ensures
        res@.map_values(|l: String| l@) == list_lines(*root, Seq::empty()),
{
    let mut out: Vec<String> = Vec::new();
    let path: Vec<String> = Vec::new();
    push_list_lines(&mut out, root, &path);
    assert(path@.map_values(|p: String| p@) =~= Seq::<Seq<char>>::empty());
    assert(out@.map_values(|l: String| l@) =~= list_lines(*root, Seq::empty()));
    out
}

} // verus!
