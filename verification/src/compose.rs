//! The processes of a network, for process-compose.

use vstd::prelude::*;

use crate::node;
use crate::node::WebcatNode;
use crate::node::WebcatNodeView;
use crate::text;

verus! {

/// The name of a node's CometBFT process.
pub open spec fn cometbft_name(node: WebcatNodeView) -> Seq<char> {
    node.name + "-cometbft"@
}

/// The name of a node's felidae process.
pub open spec fn felidae_name(node: WebcatNodeView) -> Seq<char> {
    node.name + "-felidae"@
}

/// The name of a node's oracle process.
pub open spec fn oracle_name(node: WebcatNodeView) -> Seq<char> {
    node.name + "-oracle"@
}

/// The line that begins a process.
pub open spec fn name_line(name: Seq<char>) -> Seq<char> {
    "  "@ + name + ":"@
}

/// The line that sets the working directory, where there is one.
pub open spec fn working_dir_lines(working_dir: Option<Seq<char>>) -> Seq<Seq<char>> {
    match working_dir {
        Some(directory) => seq!["    working_dir: "@ + directory],
        None => Seq::empty(),
    }
}

/// The lines that have a process started again up to three times when it fails.
pub open spec fn restart_lines() -> Seq<Seq<char>> {
    seq!["    availability:"@, "      restart: on_failure"@, "      max_restarts: 3"@]
}

/// The lines that have a process started once another was.
pub open spec fn depends_lines(name: Seq<char>) -> Seq<Seq<char>> {
    seq![
        "    depends_on:"@,
        "      "@ + name + ":"@,
        "        condition: process_started"@,
    ]
}

/// The lines of a node's CometBFT process.
pub open spec fn cometbft_lines(node: WebcatNodeView) -> Seq<Seq<char>> {
    seq![
        name_line(cometbft_name(node)),
        "    command: cometbft start --home "@ + node.cometbft_home(),
    ] + restart_lines()
}

/// The line that runs felidae for a node.
pub open spec fn felidae_command_line(node: WebcatNodeView, command: Seq<char>) -> Seq<char> {
    "    command: "@ + command + " start --abci-bind "@ + node.abci_address() + " --query-bind "@
        + node::address_of(node.bind_address, node.ports.felidae_query) + " --homedir "@
        + node.felidae_home()
}

/// The lines of a node's felidae process. It is started once CometBFT was.
pub open spec fn felidae_lines(
    node: WebcatNodeView,
    command: Seq<char>,
    working_dir: Option<Seq<char>>,
) -> Seq<Seq<char>> {
    seq![name_line(felidae_name(node)), felidae_command_line(node, command)] + working_dir_lines(
        working_dir,
    ) + depends_lines(cometbft_name(node)) + restart_lines()
}

/// The line that runs the oracle of a validator.
pub open spec fn oracle_command_line(node: WebcatNodeView, command: Seq<char>) -> Seq<char> {
    "    command: "@ + command + " oracle server --bind "@ + node::address_of(
        node.bind_address,
        node.ports.felidae_oracle,
    ) + " --node http://"@ + node.bind_address + ":"@ + text::decimal(
        node.ports.cometbft_rpc as nat,
    ) + " --homedir "@ + node.felidae_home()
}

/// The lines of a validator's oracle process. It is started once felidae was.
pub open spec fn oracle_lines(
    node: WebcatNodeView,
    command: Seq<char>,
    working_dir: Option<Seq<char>>,
) -> Seq<Seq<char>> {
    seq![name_line(oracle_name(node)), oracle_command_line(node, command)] + working_dir_lines(
        working_dir,
    ) + depends_lines(felidae_name(node)) + restart_lines()
}

/// The lines of each process of the nodes, in their order: CometBFT and felidae for each, and the
/// oracle for each validator.
pub open spec fn processes(
    nodes: Seq<WebcatNodeView>,
    command: Seq<char>,
    working_dir: Option<Seq<char>>,
) -> Seq<Seq<Seq<char>>>
    decreases nodes.len(),
{
    if nodes.len() == 0 {
        Seq::empty()
    } else {
        let node = nodes.last();
        let both = processes(nodes.drop_last(), command, working_dir).push(
            cometbft_lines(node),
        ).push(felidae_lines(node, command, working_dir));
        if node.role is Validator {
            both.push(oracle_lines(node, command, working_dir))
        } else {
            both
        }
    }
}

/// The lines of these processes, with an empty line between each two of them. Where there are none,
/// an empty line stands for them.
pub open spec fn section_lines(processes: Seq<Seq<Seq<char>>>) -> Seq<Seq<char>>
    decreases processes.len(),
{
    if processes.len() == 0 {
        seq![Seq::empty()]
    } else if processes.len() == 1 {
        processes[0]
    } else {
        section_lines(processes.drop_last()) + seq![Seq::empty()] + processes.last()
    }
}

/// The lines before the processes.
pub open spec fn header_lines() -> Seq<Seq<char>> {
    seq![
        "version: \"0.5\""@,
        Seq::empty(),
        "# Process-compose configuration for felidae network"@,
        "# Generated by felidae-deployer"@,
        Seq::empty(),
        "log_level: info"@,
        Seq::empty(),
        "processes:"@,
    ]
}

/// The lines of the process-compose file of these nodes. The last one is empty.
pub open spec fn file_lines(
    nodes: Seq<WebcatNodeView>,
    command: Seq<char>,
    working_dir: Option<Seq<char>>,
) -> Seq<Seq<char>> {
    header_lines() + section_lines(processes(nodes, command, working_dir)) + seq![Seq::empty()]
}

/// The process-compose file of these nodes.
pub open spec fn process_compose(
    nodes: Seq<WebcatNodeView>,
    command: Seq<char>,
    working_dir: Option<Seq<char>>,
) -> Seq<char> {
    text::join(file_lines(nodes, command, working_dir), "\n"@)
}

fn process_name(node: &WebcatNode, suffix: &str) -> (r: String)
    ensures
        r@ == node@.name + suffix@,
{
    let mut name = node.name.as_str().to_string();
    name.append(suffix);
    name
}

fn line_of(before: &str, name: &str, after: &str) -> (r: String)
    ensures
        r@ == before@ + name@ + after@,
{
    let mut line = before.to_string();
    line.append(name);
    line.append(after);
    line
}

fn add_restart_lines(lines: &mut Vec<String>)
    ensures
        text::text_views(final(lines)@) == text::text_views(old(lines)@) + restart_lines(),
{
    let ghost before = text::text_views(lines@);
    lines.push("    availability:".to_string());
    lines.push("      restart: on_failure".to_string());
    lines.push("      max_restarts: 3".to_string());
    assert(text::text_views(lines@) =~= before + restart_lines());
}

fn add_depends_lines(lines: &mut Vec<String>, name: &str)
    ensures
        text::text_views(final(lines)@) == text::text_views(old(lines)@) + depends_lines(name@),
{
    let ghost before = text::text_views(lines@);
    lines.push("    depends_on:".to_string());
    lines.push(line_of("      ", name, ":"));
    lines.push("        condition: process_started".to_string());
    assert(text::text_views(lines@) =~= before + depends_lines(name@));
}

fn add_working_dir_lines(lines: &mut Vec<String>, working_dir: Option<&str>)
    ensures
        text::text_views(final(lines)@) == text::text_views(old(lines)@) + working_dir_lines(
            text::option_str_view(working_dir),
        ),
{
    let ghost before = text::text_views(lines@);
    match working_dir {
        Some(directory) => {
            let mut line = "    working_dir: ".to_string();
            line.append(directory);
            lines.push(line);
        },
        None => {},
    }
    assert(text::text_views(lines@) =~= before + working_dir_lines(
        text::option_str_view(working_dir),
    ));
}

fn cometbft_process(node: &WebcatNode) -> (r: Vec<String>)
    ensures
        text::text_views(r@) == cometbft_lines(node@),
{
    let mut command = "    command: cometbft start --home ".to_string();
    command.append(node.cometbft_home().as_str());
    let mut lines = vec![line_of("  ", process_name(node, "-cometbft").as_str(), ":"), command];
    assert(text::text_views(lines@) =~= seq![
        name_line(cometbft_name(node@)),
        "    command: cometbft start --home "@ + node@.cometbft_home(),
    ]);
    add_restart_lines(&mut lines);
    lines
}

fn felidae_process(node: &WebcatNode, command: &str, working_dir: Option<&str>) -> (r: Vec<String>)
    ensures
        text::text_views(r@) == felidae_lines(
            node@,
            command@,
            text::option_str_view(working_dir),
        ),
{
    let mut run = "    command: ".to_string();
    run.append(command);
    run.append(" start --abci-bind ");
    run.append(node.abci_address().as_str());
    run.append(" --query-bind ");
    run.append(node::host_and_port(node.bind_address.as_str(), node.ports.felidae_query).as_str());
    run.append(" --homedir ");
    run.append(node.felidae_home().as_str());
    let mut lines = vec![line_of("  ", process_name(node, "-felidae").as_str(), ":"), run];
    assert(text::text_views(lines@) =~= seq![
        name_line(felidae_name(node@)),
        felidae_command_line(node@, command@),
    ]);
    add_working_dir_lines(&mut lines, working_dir);
    add_depends_lines(&mut lines, process_name(node, "-cometbft").as_str());
    add_restart_lines(&mut lines);
    lines
}

fn oracle_process(node: &WebcatNode, command: &str, working_dir: Option<&str>) -> (r: Vec<String>)
    ensures
        text::text_views(r@) == oracle_lines(
            node@,
            command@,
            text::option_str_view(working_dir),
        ),
{
    let mut run = "    command: ".to_string();
    run.append(command);
    run.append(" oracle server --bind ");
    run.append(node::host_and_port(node.bind_address.as_str(), node.ports.felidae_oracle).as_str());
    run.append(" --node http://");
    run.append(node.bind_address.as_str());
    run.append(":");
    run.append(text::decimal_text(node.ports.cometbft_rpc as u64).as_str());
    run.append(" --homedir ");
    run.append(node.felidae_home().as_str());
    let mut lines = vec![line_of("  ", process_name(node, "-oracle").as_str(), ":"), run];
    assert(text::text_views(lines@) =~= seq![
        name_line(oracle_name(node@)),
        oracle_command_line(node@, command@),
    ]);
    add_working_dir_lines(&mut lines, working_dir);
    add_depends_lines(&mut lines, process_name(node, "-felidae").as_str());
    add_restart_lines(&mut lines);
    lines
}

fn add_section(lines: &mut Vec<String>, section: Vec<String>, Ghost(before): Ghost<
    Seq<Seq<Seq<char>>>,
>)
    requires
        before.len() == 0 ==> old(lines)@.len() == 0,
        before.len() > 0 ==> text::text_views(old(lines)@) == section_lines(before),
        before.len() > 0 ==> old(lines)@.len() > 0,
        section@.len() > 0,
    ensures
        text::text_views(final(lines)@) == section_lines(before.push(text::text_views(section@))),
        final(lines)@.len() > 0,
{
    let ghost there = text::text_views(lines@);
    let ghost added = text::text_views(section@);
    let ghost after = before.push(added);
    assert(after.drop_last() =~= before);
    let mut section = section;
    if lines.len() > 0 {
        let empty = String::new();
        lines.push(empty);
        lines.append(&mut section);
        assert(text::text_views(lines@) =~= there + seq![Seq::empty()] + added);
    } else {
        lines.append(&mut section);
        assert(text::text_views(lines@) =~= added);
    }
}

fn process_lines(nodes: &Vec<WebcatNode>, command: &str, working_dir: Option<&str>) -> (r: Vec<
    String,
>)
    ensures
        text::text_views(r@) == section_lines(
            processes(
                nodes@.map_values(|n: WebcatNode| n@),
                command@,
                text::option_str_view(working_dir),
            ),
        ),
{
    let ghost views = nodes@.map_values(|n: WebcatNode| n@);
    let ghost directory = text::option_str_view(working_dir);
    let mut lines: Vec<String> = Vec::new();
    let mut i: usize = 0;
    assert(views.take(0) =~= Seq::empty());
    while i < nodes.len()
        invariant
            i <= nodes.len(),
            views == nodes@.map_values(|n: WebcatNode| n@),
            directory == text::option_str_view(working_dir),
            i == 0 ==> lines@.len() == 0,
            i > 0 ==> lines@.len() > 0,
            processes(views.take(i as int), command@, directory).len() > 0 <==> i > 0,
            i > 0 ==> text::text_views(lines@) == section_lines(
                processes(views.take(i as int), command@, directory),
            ),
        decreases nodes.len() - i,
    {
        let ghost before = processes(views.take(i as int), command@, directory);
        proof {
            assert(views.take(i + 1).drop_last() =~= views.take(i as int));
            assert(views.take(i + 1).last() == nodes@[i as int]@);
        }
        let node = &nodes[i];
        let section = cometbft_process(node);
        let ghost first = text::text_views(section@);
        assert(first.len() == section@.len());
        add_section(&mut lines, section, Ghost(before));
        let section = felidae_process(node, command, working_dir);
        let ghost second = text::text_views(section@);
        assert(second.len() == section@.len());
        add_section(&mut lines, section, Ghost(before.push(first)));
        if node.role.is_validator() {
            let section = oracle_process(node, command, working_dir);
            let ghost third = text::text_views(section@);
            assert(third.len() == section@.len());
            add_section(&mut lines, section, Ghost(before.push(first).push(second)));
        }
        i += 1;
    }
    assert(views.take(views.len() as int) =~= views);
    if lines.len() == 0 {
        let empty = String::new();
        lines.push(empty);
        assert(text::text_views(lines@) =~= seq![Seq::empty()]);
    }
    lines
}

/// The process-compose file of these nodes. `command` runs felidae, in `working_dir` where there is
/// one.
pub fn write_process_compose(
    nodes: &Vec<WebcatNode>,
    command: &str,
    working_dir: Option<&str>,
) -> (r: String)
    ensures
        r@ == process_compose(
            nodes@.map_values(|n: WebcatNode| n@),
            command@,
            text::option_str_view(working_dir),
        ),
{
    let mut lines = vec![
        "version: \"0.5\"".to_string(),
        String::new(),
        "# Process-compose configuration for felidae network".to_string(),
        "# Generated by felidae-deployer".to_string(),
        String::new(),
        "log_level: info".to_string(),
        String::new(),
        "processes:".to_string(),
    ];
    assert(text::text_views(lines@) =~= header_lines());
    let mut sections = process_lines(nodes, command, working_dir);
    let ghost middle = text::text_views(sections@);
    lines.append(&mut sections);
    assert(text::text_views(lines@) =~= header_lines() + middle);
    let empty = String::new();
    lines.push(empty);
    assert(text::text_views(lines@) =~= header_lines() + middle + seq![Seq::empty()]);
    text::join_texts(&lines, "\n")
}

} // verus!
