//! What holds of every process-compose file.

use vstd::prelude::*;

use crate::compose;
use crate::network;
use crate::node;
use crate::node::NodeRole;
use crate::node::WebcatNodeView;
use crate::text;

verus! {

/// Whether a line sets a working directory.
pub open spec fn sets_working_dir(line: Seq<char>) -> bool {
    line.len() >= 16 && line.take(16) == "    working_dir:"@
}

/// The lines that do not set a working directory.
pub open spec fn without_working_dir(lines: Seq<Seq<char>>) -> Seq<Seq<char>>
    decreases lines.len(),
{
    if lines.len() == 0 {
        Seq::empty()
    } else if sets_working_dir(lines.last()) {
        without_working_dir(lines.drop_last())
    } else {
        without_working_dir(lines.drop_last()).push(lines.last())
    }
}

/// The number of lines that set a working directory.
pub open spec fn working_dirs(lines: Seq<Seq<char>>) -> nat {
    (lines.len() - without_working_dir(lines).len()) as nat
}

/// Whether none of these lines sets a working directory.
pub open spec fn no_working_dir(lines: Seq<Seq<char>>) -> bool {
    forall|i: int| 0 <= i < lines.len() ==> !sets_working_dir(#[trigger] lines[i])
}

/// Whether a node's name and paths are on one line each, and its name is not taken for a line that
/// sets a working directory.
pub open spec fn plain(node: WebcatNodeView) -> bool {
    &&& text::lacks(node.name, '\n')
    &&& text::lacks(node.bind_address, '\n')
    &&& text::lacks(node.cometbft_home(), '\n')
    &&& text::lacks(node.felidae_home(), '\n')
    &&& !(node.name.len() >= 14 && node.name.take(14) == "  working_dir:"@)
}

/// Whether all nodes are plain.
pub open spec fn all_plain(nodes: Seq<WebcatNodeView>) -> bool {
    forall|i: int| 0 <= i < nodes.len() ==> plain(#[trigger] nodes[i])
}

proof fn lemma_without_append(a: Seq<Seq<char>>, b: Seq<Seq<char>>)
    ensures
        without_working_dir(a + b) == without_working_dir(a) + without_working_dir(b),
    decreases b.len(),
{
    if b.len() == 0 {
        assert(a + b =~= a);
        assert(without_working_dir(a) + without_working_dir(b) =~= without_working_dir(a));
    } else {
        lemma_without_append(a, b.drop_last());
        assert((a + b).drop_last() =~= a + b.drop_last());
        assert((a + b).last() == b.last());
        assert(without_working_dir(a + b) =~= without_working_dir(a) + without_working_dir(b));
    }
}

proof fn lemma_without_none(lines: Seq<Seq<char>>)
    requires
        no_working_dir(lines),
    ensures
        without_working_dir(lines) == lines,
    decreases lines.len(),
{
    if lines.len() > 0 {
        let front = lines.drop_last();
        assert forall|i: int| 0 <= i < front.len() implies !sets_working_dir(
            #[trigger] front[i],
        ) by {
            assert(front[i] == lines[i]);
        }
        lemma_without_none(front);
        assert(!sets_working_dir(lines[lines.len() - 1]));
        assert(front.push(lines.last()) =~= lines);
    } else {
        assert(lines =~= Seq::empty());
    }
}

proof fn lemma_other_line(line: Seq<char>)
    requires
        line.len() > 4 ==> line[4] != 'w',
    ensures
        !sets_working_dir(line),
{
    reveal_strlit("    working_dir:");
    if sets_working_dir(line) {
        assert(line.take(16)[4] == 'w');
    }
}

/// The line that begins a process sets no working directory.
proof fn lemma_name_line(name: Seq<char>, suffix: Seq<char>)
    requires
        !(name.len() >= 14 && name.take(14) == "  working_dir:"@),
        suffix.len() > 0,
        suffix[0] == '-',
    ensures
        !sets_working_dir(compose::name_line(name + suffix)),
{
    reveal_strlit("    working_dir:");
    reveal_strlit("  working_dir:");
    reveal_strlit("  ");
    reveal_strlit(":");
    let line = compose::name_line(name + suffix);
    if sets_working_dir(line) {
        let start = line.take(16);
        assert(forall|i: int| 0 <= i < 16 ==> #[trigger] start[i] == line[i]);
        if name.len() >= 14 {
            assert forall|i: int| 0 <= i < 14 implies #[trigger] name.take(14)[i]
                == "  working_dir:"@[i] by {
                assert(start[i + 2] == name[i]);
            }
            assert(name.take(14) =~= "  working_dir:"@);
        } else {
            let i = 2 + name.len();
            assert(line[i as int] == '-');
            assert(start[i as int] == '-');
        }
    }
}

proof fn lemma_restart_lines()
    ensures
        no_working_dir(compose::restart_lines()),
{
    reveal_strlit("    availability:");
    reveal_strlit("      restart: on_failure");
    reveal_strlit("      max_restarts: 3");
    let lines = compose::restart_lines();
    lemma_other_line(lines[0]);
    lemma_other_line(lines[1]);
    lemma_other_line(lines[2]);
}

proof fn lemma_depends_lines(name: Seq<char>)
    ensures
        no_working_dir(compose::depends_lines(name)),
{
    reveal_strlit("    depends_on:");
    reveal_strlit("      ");
    reveal_strlit("        condition: process_started");
    let lines = compose::depends_lines(name);
    lemma_other_line(lines[0]);
    lemma_other_line(lines[1]);
    lemma_other_line(lines[2]);
}

proof fn lemma_working_dir_line(directory: Seq<char>)
    ensures
        sets_working_dir("    working_dir: "@ + directory),
{
    reveal_strlit("    working_dir:");
    reveal_strlit("    working_dir: ");
    let line = "    working_dir: "@ + directory;
    assert(line.take(16) =~= "    working_dir:"@);
}

proof fn lemma_no_working_dir_append(a: Seq<Seq<char>>, b: Seq<Seq<char>>)
    requires
        no_working_dir(a),
        no_working_dir(b),
    ensures
        no_working_dir(a + b),
{
    assert forall|i: int| 0 <= i < (a + b).len() implies !sets_working_dir(
        #[trigger] (a + b)[i],
    ) by {
        if i < a.len() {
            assert((a + b)[i] == a[i]);
        } else {
            assert((a + b)[i] == b[i - a.len()]);
        }
    }
}

/// A CometBFT process has no line that sets a working directory.
pub proof fn lemma_cometbft_has_no_working_dir(node: WebcatNodeView)
    requires
        plain(node),
    ensures
        no_working_dir(compose::cometbft_lines(node)),
{
    reveal_strlit("-cometbft");
    reveal_strlit("    command: cometbft start --home ");
    let head = seq![
        compose::name_line(compose::cometbft_name(node)),
        "    command: cometbft start --home "@ + node.cometbft_home(),
    ];
    lemma_name_line(node.name, "-cometbft"@);
    lemma_other_line(head[1]);
    lemma_restart_lines();
    lemma_no_working_dir_append(head, compose::restart_lines());
}

proof fn lemma_with_working_dir(
    head: Seq<Seq<char>>,
    tail: Seq<Seq<char>>,
    directory: Seq<char>,
)
    requires
        no_working_dir(head),
        no_working_dir(tail),
    ensures
        no_working_dir(head + tail),
        without_working_dir(head + seq!["    working_dir: "@ + directory] + tail) == head + tail,
        head + seq!["    working_dir: "@ + directory] + tail == (head + tail).insert(
            head.len() as int,
            "    working_dir: "@ + directory,
        ),
{
    let one = seq!["    working_dir: "@ + directory];
    lemma_working_dir_line(directory);
    reveal_with_fuel(without_working_dir, 2);
    assert(one.drop_last() =~= Seq::empty());
    assert(without_working_dir(one) =~= Seq::empty());
    lemma_without_append(head, one);
    lemma_without_append(head + one, tail);
    lemma_without_none(head);
    lemma_without_none(tail);
    lemma_no_working_dir_append(head, tail);
    assert(head + Seq::<Seq<char>>::empty() =~= head);
    assert(head + one + tail =~= (head + tail).insert(head.len() as int, one[0]));
}

/// A felidae process has one line more with a working directory than without, the one that sets it,
/// behind the command.
pub proof fn lemma_felidae_working_dir(
    node: WebcatNodeView,
    command: Seq<char>,
    directory: Seq<char>,
)
    requires
        plain(node),
    ensures
        no_working_dir(compose::felidae_lines(node, command, None)),
        without_working_dir(compose::felidae_lines(node, command, Some(directory)))
            == compose::felidae_lines(node, command, None),
        compose::felidae_lines(node, command, Some(directory)) == compose::felidae_lines(
            node,
            command,
            None,
        ).insert(2, "    working_dir: "@ + directory),
{
    reveal_strlit("-felidae");
    reveal_strlit("    command: ");
    let head = seq![
        compose::name_line(compose::felidae_name(node)),
        compose::felidae_command_line(node, command),
    ];
    let depends = compose::depends_lines(compose::cometbft_name(node));
    let tail = depends + compose::restart_lines();
    lemma_name_line(node.name, "-felidae"@);
    assert(head[1][4] == 'c');
    lemma_other_line(head[1]);
    lemma_depends_lines(compose::cometbft_name(node));
    lemma_restart_lines();
    lemma_no_working_dir_append(depends, compose::restart_lines());
    lemma_with_working_dir(head, tail, directory);
    assert(compose::felidae_lines(node, command, None) =~= head + tail);
    assert(compose::felidae_lines(node, command, Some(directory)) =~= head + seq![
        "    working_dir: "@ + directory,
    ] + tail);
}

/// An oracle process has one line more with a working directory than without, the one that sets it,
/// behind the command.
pub proof fn lemma_oracle_working_dir(
    node: WebcatNodeView,
    command: Seq<char>,
    directory: Seq<char>,
)
    requires
        plain(node),
    ensures
        no_working_dir(compose::oracle_lines(node, command, None)),
        without_working_dir(compose::oracle_lines(node, command, Some(directory)))
            == compose::oracle_lines(node, command, None),
        compose::oracle_lines(node, command, Some(directory)) == compose::oracle_lines(
            node,
            command,
            None,
        ).insert(2, "    working_dir: "@ + directory),
{
    reveal_strlit("-oracle");
    reveal_strlit("    command: ");
    let head = seq![
        compose::name_line(compose::oracle_name(node)),
        compose::oracle_command_line(node, command),
    ];
    let depends = compose::depends_lines(compose::felidae_name(node));
    let tail = depends + compose::restart_lines();
    lemma_name_line(node.name, "-oracle"@);
    assert(head[1][4] == 'c');
    lemma_other_line(head[1]);
    lemma_depends_lines(compose::felidae_name(node));
    lemma_restart_lines();
    lemma_no_working_dir_append(depends, compose::restart_lines());
    lemma_with_working_dir(head, tail, directory);
    assert(compose::oracle_lines(node, command, None) =~= head + tail);
    assert(compose::oracle_lines(node, command, Some(directory)) =~= head + seq![
        "    working_dir: "@ + directory,
    ] + tail);
}

/// Adding a process after others, with a working directory or without.
proof fn lemma_section(
    with: Seq<Seq<Seq<char>>>,
    without: Seq<Seq<Seq<char>>>,
    new_with: Seq<Seq<char>>,
    new_without: Seq<Seq<char>>,
)
    requires
        with.len() == without.len(),
        without_working_dir(compose::section_lines(with)) == compose::section_lines(without),
        no_working_dir(compose::section_lines(without)),
        without_working_dir(new_with) == new_without,
        no_working_dir(new_without),
    ensures
        without_working_dir(compose::section_lines(with.push(new_with))) == compose::section_lines(
            without.push(new_without),
        ),
        no_working_dir(compose::section_lines(without.push(new_without))),
        with.len() > 0 ==> working_dirs(compose::section_lines(with.push(new_with)))
            == working_dirs(compose::section_lines(with)) + working_dirs(new_with),
        with.len() == 0 ==> working_dirs(compose::section_lines(with.push(new_with)))
            == working_dirs(new_with),
{
    assert(with.push(new_with).drop_last() =~= with);
    assert(without.push(new_without).drop_last() =~= without);
    if with.len() > 0 {
        let empty = seq![Seq::<char>::empty()];
        assert(no_working_dir(empty));
        lemma_without_none(empty);
        lemma_without_append(compose::section_lines(with), empty);
        lemma_without_append(compose::section_lines(with) + empty, new_with);
        lemma_no_working_dir_append(compose::section_lines(without), empty);
        lemma_no_working_dir_append(compose::section_lines(without) + empty, new_without);
        lemma_without_shorter(compose::section_lines(with));
        lemma_without_shorter(new_with);
    }
}

proof fn lemma_without_shorter(lines: Seq<Seq<char>>)
    ensures
        without_working_dir(lines).len() <= lines.len(),
    decreases lines.len(),
{
    if lines.len() > 0 {
        lemma_without_shorter(lines.drop_last());
    }
}

proof fn lemma_processes(nodes: Seq<WebcatNodeView>, command: Seq<char>, directory: Seq<char>)
    requires
        all_plain(nodes),
    ensures
        ({
            let with = compose::processes(nodes, command, Some(directory));
            let without = compose::processes(nodes, command, None);
            &&& with.len() == without.len()
            &&& with.len() > 0 <==> nodes.len() > 0
            &&& without_working_dir(compose::section_lines(with)) == compose::section_lines(without)
            &&& no_working_dir(compose::section_lines(without))
            &&& working_dirs(compose::section_lines(with)) == nodes.len() + network::nodes_of(
                nodes,
                NodeRole::Validator,
            ).len()
        }),
    decreases nodes.len(),
{
    let with = compose::processes(nodes, command, Some(directory));
    let without = compose::processes(nodes, command, None);
    if nodes.len() == 0 {
        let empty = seq![Seq::<char>::empty()];
        assert(no_working_dir(empty));
        lemma_without_none(empty);
    } else {
        let front = nodes.drop_last();
        let node = nodes[nodes.len() - 1];
        assert forall|i: int| 0 <= i < front.len() implies plain(#[trigger] front[i]) by {
            assert(front[i] == nodes[i]);
        }
        lemma_processes(front, command, directory);
        assert(plain(node));
        let a = compose::processes(front, command, Some(directory));
        let b = compose::processes(front, command, None);
        let own = compose::cometbft_lines(node);
        lemma_cometbft_has_no_working_dir(node);
        lemma_without_none(own);
        lemma_section(a, b, own, own);
        let f = compose::felidae_lines(node, command, Some(directory));
        let g = compose::felidae_lines(node, command, None);
        lemma_felidae_working_dir(node, command, directory);
        lemma_section(a.push(own), b.push(own), f, g);
        assert(working_dirs(f) == 1);
        if node.role is Validator {
            let o = compose::oracle_lines(node, command, Some(directory));
            let p = compose::oracle_lines(node, command, None);
            lemma_oracle_working_dir(node, command, directory);
            lemma_section(a.push(own).push(f), b.push(own).push(g), o, p);
            assert(working_dirs(o) == 1);
        }
    }
}

proof fn lemma_header_lines()
    ensures
        no_working_dir(compose::header_lines()),
{
    reveal_strlit("version: \"0.5\"");
    reveal_strlit("# Process-compose configuration for felidae network");
    reveal_strlit("# Generated by felidae-deployer");
    reveal_strlit("log_level: info");
    reveal_strlit("processes:");
    let lines = compose::header_lines();
    assert forall|i: int| 0 <= i < lines.len() implies !sets_working_dir(#[trigger] lines[i]) by {
        lemma_other_line(lines[i]);
    }
}

/// The lines of a process-compose file with a working directory, but for those that set it, are the
/// lines of the file without one, none of which sets one. There is one such line for each felidae and
/// each oracle process.
pub proof fn lemma_working_dir(nodes: Seq<WebcatNodeView>, command: Seq<char>, directory: Seq<char>)
    requires
        all_plain(nodes),
    ensures
        no_working_dir(compose::file_lines(nodes, command, None)),
        without_working_dir(compose::file_lines(nodes, command, Some(directory)))
            == compose::file_lines(nodes, command, None),
        working_dirs(compose::file_lines(nodes, command, Some(directory))) == nodes.len()
            + network::nodes_of(nodes, NodeRole::Validator).len(),
{
    let empty = seq![Seq::<char>::empty()];
    let header = compose::header_lines();
    let with = compose::section_lines(compose::processes(nodes, command, Some(directory)));
    let without = compose::section_lines(compose::processes(nodes, command, None));
    lemma_processes(nodes, command, directory);
    lemma_header_lines();
    assert(no_working_dir(empty));
    lemma_without_none(empty);
    lemma_without_none(header);
    lemma_without_append(header, with);
    lemma_without_append(header + with, empty);
    lemma_no_working_dir_append(header, without);
    lemma_no_working_dir_append(header + without, empty);
    lemma_without_shorter(with);
}

/// Whether each of these is on one line.
pub open spec fn all_single(lines: Seq<Seq<char>>) -> bool {
    forall|i: int| 0 <= i < lines.len() ==> text::lacks(#[trigger] lines[i], '\n')
}

proof fn lemma_single_append(a: Seq<Seq<char>>, b: Seq<Seq<char>>)
    requires
        all_single(a),
        all_single(b),
    ensures
        all_single(a + b),
{
    assert forall|i: int| 0 <= i < (a + b).len() implies text::lacks(
        #[trigger] (a + b)[i],
        '\n',
    ) by {
        if i < a.len() {
            assert((a + b)[i] == a[i]);
        } else {
            assert((a + b)[i] == b[i - a.len()]);
        }
    }
}

proof fn lemma_lacks_append(a: Seq<char>, b: Seq<char>, c: char)
    requires
        text::lacks(a, c),
        text::lacks(b, c),
    ensures
        text::lacks(a + b, c),
{
    assert forall|i: int| 0 <= i < (a + b).len() implies #[trigger] (a + b)[i] != c by {
        if i < a.len() {
            assert((a + b)[i] == a[i]);
        } else {
            assert((a + b)[i] == b[i - a.len()]);
        }
    }
}

proof fn lemma_decimal_is_single(n: nat)
    ensures
        text::lacks(text::decimal(n), '\n'),
    decreases n,
{
    if n >= 10 {
        lemma_decimal_is_single(n / 10);
    }
}

proof fn lemma_address_is_single(host: Seq<char>, port: u16)
    requires
        text::lacks(host, '\n'),
    ensures
        text::lacks(node::address_of(host, port), '\n'),
{
    reveal_strlit(":");
    lemma_decimal_is_single(port as nat);
    lemma_lacks_append(host, ":"@, '\n');
    lemma_lacks_append(host + ":"@, text::decimal(port as nat), '\n');
}

proof fn lemma_name_is_single(name: Seq<char>, suffix: Seq<char>)
    requires
        text::lacks(name, '\n'),
        text::lacks(suffix, '\n'),
    ensures
        text::lacks(name + suffix, '\n'),
        text::lacks(compose::name_line(name + suffix), '\n'),
{
    reveal_strlit("  ");
    reveal_strlit(":");
    lemma_lacks_append(name, suffix, '\n');
    lemma_lacks_append("  "@, name + suffix, '\n');
    lemma_lacks_append("  "@ + (name + suffix), ":"@, '\n');
}

proof fn lemma_depends_is_single(name: Seq<char>)
    requires
        text::lacks(name, '\n'),
    ensures
        all_single(compose::depends_lines(name)),
{
    reveal_strlit("    depends_on:");
    reveal_strlit("      ");
    reveal_strlit(":");
    reveal_strlit("        condition: process_started");
    lemma_lacks_append("      "@, name, '\n');
    lemma_lacks_append("      "@ + name, ":"@, '\n');
}

proof fn lemma_restart_is_single()
    ensures
        all_single(compose::restart_lines()),
{
    reveal_strlit("    availability:");
    reveal_strlit("      restart: on_failure");
    reveal_strlit("      max_restarts: 3");
}

proof fn lemma_working_dir_is_single(working_dir: Option<Seq<char>>)
    requires
        working_dir matches Some(directory) ==> text::lacks(directory, '\n'),
    ensures
        all_single(compose::working_dir_lines(working_dir)),
{
    reveal_strlit("    working_dir: ");
    if working_dir is Some {
        lemma_lacks_append("    working_dir: "@, working_dir->0, '\n');
    }
}

proof fn lemma_cometbft_is_single(node: WebcatNodeView)
    requires
        plain(node),
    ensures
        all_single(compose::cometbft_lines(node)),
{
    reveal_strlit("-cometbft");
    reveal_strlit("    command: cometbft start --home ");
    lemma_name_is_single(node.name, "-cometbft"@);
    let head = "    command: cometbft start --home "@;
    assert(text::lacks(head, '\n'));
    lemma_lacks_append(head, node.cometbft_home(), '\n');
    lemma_restart_is_single();
    lemma_single_append(
        seq![
            compose::name_line(compose::cometbft_name(node)),
            "    command: cometbft start --home "@ + node.cometbft_home(),
        ],
        compose::restart_lines(),
    );
}

proof fn lemma_felidae_is_single(
    node: WebcatNodeView,
    command: Seq<char>,
    working_dir: Option<Seq<char>>,
)
    requires
        plain(node),
        text::lacks(command, '\n'),
        working_dir matches Some(directory) ==> text::lacks(directory, '\n'),
    ensures
        all_single(compose::felidae_lines(node, command, working_dir)),
{
    reveal_strlit("-cometbft");
    reveal_strlit("-felidae");
    reveal_strlit("    command: ");
    reveal_strlit(" start --abci-bind ");
    reveal_strlit(" --query-bind ");
    reveal_strlit(" --homedir ");
    lemma_name_is_single(node.name, "-cometbft"@);
    lemma_name_is_single(node.name, "-felidae"@);
    lemma_address_is_single(node.bind_address, node.ports.felidae_abci);
    lemma_address_is_single(node.bind_address, node.ports.felidae_query);
    let query = node::address_of(node.bind_address, node.ports.felidae_query);
    let a = "    command: "@ + command;
    let b = a + " start --abci-bind "@;
    let c = b + node.abci_address();
    let d = c + " --query-bind "@;
    let e = d + query;
    let f = e + " --homedir "@;
    lemma_lacks_append("    command: "@, command, '\n');
    lemma_lacks_append(a, " start --abci-bind "@, '\n');
    lemma_lacks_append(b, node.abci_address(), '\n');
    lemma_lacks_append(c, " --query-bind "@, '\n');
    lemma_lacks_append(d, query, '\n');
    lemma_lacks_append(e, " --homedir "@, '\n');
    lemma_lacks_append(f, node.felidae_home(), '\n');
    let head = seq![
        compose::name_line(compose::felidae_name(node)),
        compose::felidae_command_line(node, command),
    ];
    let depends = compose::depends_lines(compose::cometbft_name(node));
    lemma_working_dir_is_single(working_dir);
    lemma_depends_is_single(compose::cometbft_name(node));
    lemma_restart_is_single();
    lemma_single_append(head, compose::working_dir_lines(working_dir));
    lemma_single_append(head + compose::working_dir_lines(working_dir), depends);
    lemma_single_append(
        head + compose::working_dir_lines(working_dir) + depends,
        compose::restart_lines(),
    );
}

proof fn lemma_oracle_is_single(
    node: WebcatNodeView,
    command: Seq<char>,
    working_dir: Option<Seq<char>>,
)
    requires
        plain(node),
        text::lacks(command, '\n'),
        working_dir matches Some(directory) ==> text::lacks(directory, '\n'),
    ensures
        all_single(compose::oracle_lines(node, command, working_dir)),
{
    reveal_strlit("-felidae");
    reveal_strlit("-oracle");
    reveal_strlit("    command: ");
    reveal_strlit(" oracle server --bind ");
    reveal_strlit(" --node http://");
    reveal_strlit(":");
    reveal_strlit(" --homedir ");
    lemma_name_is_single(node.name, "-felidae"@);
    lemma_name_is_single(node.name, "-oracle"@);
    lemma_address_is_single(node.bind_address, node.ports.felidae_oracle);
    lemma_decimal_is_single(node.ports.cometbft_rpc as nat);
    let bind = node::address_of(node.bind_address, node.ports.felidae_oracle);
    let rpc = text::decimal(node.ports.cometbft_rpc as nat);
    let a = "    command: "@ + command;
    let b = a + " oracle server --bind "@;
    let c = b + bind;
    let d = c + " --node http://"@;
    let e = d + node.bind_address;
    let f = e + ":"@;
    let g = f + rpc;
    let h = g + " --homedir "@;
    lemma_lacks_append("    command: "@, command, '\n');
    lemma_lacks_append(a, " oracle server --bind "@, '\n');
    lemma_lacks_append(b, bind, '\n');
    lemma_lacks_append(c, " --node http://"@, '\n');
    lemma_lacks_append(d, node.bind_address, '\n');
    lemma_lacks_append(e, ":"@, '\n');
    lemma_lacks_append(f, rpc, '\n');
    lemma_lacks_append(g, " --homedir "@, '\n');
    lemma_lacks_append(h, node.felidae_home(), '\n');
    let head = seq![
        compose::name_line(compose::oracle_name(node)),
        compose::oracle_command_line(node, command),
    ];
    let depends = compose::depends_lines(compose::felidae_name(node));
    lemma_working_dir_is_single(working_dir);
    lemma_depends_is_single(compose::felidae_name(node));
    lemma_restart_is_single();
    lemma_single_append(head, compose::working_dir_lines(working_dir));
    lemma_single_append(head + compose::working_dir_lines(working_dir), depends);
    lemma_single_append(
        head + compose::working_dir_lines(working_dir) + depends,
        compose::restart_lines(),
    );
}

proof fn lemma_section_is_single(before: Seq<Seq<Seq<char>>>, new: Seq<Seq<char>>)
    requires
        all_single(compose::section_lines(before)),
        all_single(new),
    ensures
        all_single(compose::section_lines(before.push(new))),
{
    assert(before.push(new).drop_last() =~= before);
    if before.len() > 0 {
        let empty = seq![Seq::<char>::empty()];
        lemma_single_append(compose::section_lines(before), empty);
        lemma_single_append(compose::section_lines(before) + empty, new);
    }
}

proof fn lemma_processes_are_single(
    nodes: Seq<WebcatNodeView>,
    command: Seq<char>,
    working_dir: Option<Seq<char>>,
)
    requires
        all_plain(nodes),
        text::lacks(command, '\n'),
        working_dir matches Some(directory) ==> text::lacks(directory, '\n'),
    ensures
        all_single(compose::section_lines(compose::processes(nodes, command, working_dir))),
    decreases nodes.len(),
{
    if nodes.len() > 0 {
        let front = nodes.drop_last();
        let node = nodes[nodes.len() - 1];
        assert forall|i: int| 0 <= i < front.len() implies plain(#[trigger] front[i]) by {
            assert(front[i] == nodes[i]);
        }
        lemma_processes_are_single(front, command, working_dir);
        assert(plain(node));
        let before = compose::processes(front, command, working_dir);
        let own = compose::cometbft_lines(node);
        let felidae = compose::felidae_lines(node, command, working_dir);
        lemma_cometbft_is_single(node);
        lemma_felidae_is_single(node, command, working_dir);
        lemma_section_is_single(before, own);
        lemma_section_is_single(before.push(own), felidae);
        if node.role is Validator {
            lemma_oracle_is_single(node, command, working_dir);
            lemma_section_is_single(
                before.push(own).push(felidae),
                compose::oracle_lines(node, command, working_dir),
            );
        }
    }
}

proof fn lemma_header_is_single()
    ensures
        all_single(compose::header_lines()),
{
    reveal_strlit("version: \"0.5\"");
    reveal_strlit("# Process-compose configuration for felidae network");
    reveal_strlit("# Generated by felidae-deployer");
    reveal_strlit("log_level: info");
    reveal_strlit("processes:");
    let lines = compose::header_lines();
    assert(text::lacks(lines[0], '\n'));
    assert(text::lacks(lines[2], '\n'));
    assert(text::lacks(lines[3], '\n'));
    assert(text::lacks(lines[5], '\n'));
    assert(text::lacks(lines[7], '\n'));
}

/// The lines that a process-compose file is made of are the lines that it is cut into.
pub proof fn lemma_lines_of_file(
    nodes: Seq<WebcatNodeView>,
    command: Seq<char>,
    working_dir: Option<Seq<char>>,
)
    requires
        all_plain(nodes),
        text::lacks(command, '\n'),
        working_dir matches Some(directory) ==> text::lacks(directory, '\n'),
    ensures
        text::split(compose::process_compose(nodes, command, working_dir), '\n')
            == compose::file_lines(nodes, command, working_dir),
{
    reveal_strlit("\n");
    let empty = seq![Seq::<char>::empty()];
    let sections = compose::section_lines(compose::processes(nodes, command, working_dir));
    lemma_header_is_single();
    lemma_processes_are_single(nodes, command, working_dir);
    lemma_single_append(compose::header_lines(), sections);
    lemma_single_append(compose::header_lines() + sections, empty);
    assert("\n"@ =~= seq!['\n']);
    text::lemma_split_join(compose::file_lines(nodes, command, working_dir), '\n', "\n"@);
}

/// The process-compose file with a working directory, without the lines that set it, is the file
/// without one, where no line sets one. There is one such line for each felidae and each oracle
/// process.
pub proof fn lemma_working_dir_lines_of_file(
    nodes: Seq<WebcatNodeView>,
    command: Seq<char>,
    directory: Seq<char>,
)
    requires
        all_plain(nodes),
        text::lacks(command, '\n'),
        text::lacks(directory, '\n'),
    ensures
        ({
            let a = text::split(compose::process_compose(nodes, command, None), '\n');
            let b = text::split(compose::process_compose(nodes, command, Some(directory)), '\n');
            &&& no_working_dir(a)
            &&& without_working_dir(b) == a
            &&& text::join(without_working_dir(b), "\n"@) == compose::process_compose(
                nodes,
                command,
                None,
            )
            &&& working_dirs(b) == nodes.len() + network::nodes_of(
                nodes,
                NodeRole::Validator,
            ).len()
        }),
{
    lemma_lines_of_file(nodes, command, None);
    lemma_lines_of_file(nodes, command, Some(directory));
    lemma_working_dir(nodes, command, directory);
}

} // verus!
