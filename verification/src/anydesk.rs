//! Detection of the local AnyDesk ID.
//!
//! The ID stands in a line `ad.anynet.id=<ID>` of a `system.conf` below a directory `AnyDesk`
//! or, for custom clients, `AnyDesk-<prefix>`. Where no such file gives one, the output of
//! `AnyDesk.exe --get-id` is used. A machine without AnyDesk has no ID, which is no error.

use vstd::prelude::*;
use vstd::string::*;

use crate::numerals;
use crate::text;

verus! {

pub open spec fn is_plain_dir(name: Seq<char>) -> bool {
    name == "AnyDesk"@
}

pub open spec fn is_custom_dir(name: Seq<char>) -> bool {
    !is_plain_dir(name) && text::begins(name, "AnyDesk-"@)
}

/// The positions of the plain (or else the custom) directories among `names`, in order.
pub open spec fn dirs_of_kind(names: Seq<Seq<char>>, plain: bool) -> Seq<int>
    decreases names.len(),
{
    if names.len() == 0 {
        Seq::empty()
    } else {
        let before = dirs_of_kind(names.drop_last(), plain);
        if (if plain {
            is_plain_dir(names.last())
        } else {
            is_custom_dir(names.last())
        }) {
            before.push(names.len() - 1)
        } else {
            before
        }
    }
}

/// The positions as mathematical integers.
pub open spec fn positions(list: Seq<usize>) -> Seq<int> {
    Seq::new(list.len(), |i: int| list[i] as int)
}

/// The positions of the directories that belong to AnyDesk: first the plain ones, then the
/// custom ones.
pub open spec fn anydesk_dirs(names: Seq<Seq<char>>) -> Seq<int> {
    dirs_of_kind(names, true) + dirs_of_kind(names, false)
}

/// Of the subdirectories with the given names, the positions of those that belong to AnyDesk:
/// the standard installation first, then the custom clients, each in the order given.
pub fn find_anydesk_dirs(names: &Vec<String>) -> (r: Vec<usize>)
    ensures
        positions(r@) == anydesk_dirs(text::texts(names@)),
{
    let mut plain: Vec<usize> = Vec::new();
    let mut custom: Vec<usize> = Vec::new();
    let ghost all = text::texts(names@);
    let mut i: usize = 0;
    while i < names.len()
        invariant
            i <= names@.len(),
            all == text::texts(names@),
            positions(plain@) == dirs_of_kind(all.take(i as int), true),
            positions(custom@) == dirs_of_kind(all.take(i as int), false),
        decreases names@.len() - i,
    {
        let name = names[i].as_str();
        let ghost plain_before = plain@;
        let ghost custom_before = custom@;
        proof {
            assert(all.take(i + 1).drop_last() =~= all.take(i as int));
            assert(all.take(i + 1).last() == name@);
        }
        if text::same(name, "AnyDesk") {
            plain.push(i);
            proof {
                assert(positions(plain@) =~= positions(plain_before).push(i as int));
            }
        } else if text::starts_with(name, "AnyDesk-") {
            custom.push(i);
            proof {
                assert(positions(custom@) =~= positions(custom_before).push(i as int));
            }
        }
        i += 1;
    }
    proof {
        assert(all.take(i as int) =~= all);
    }
    let ghost first = plain@;
    let mut k: usize = 0;
    while k < custom.len()
        invariant
            k <= custom@.len(),
            plain@ == first + custom@.take(k as int),
        decreases custom@.len() - k,
    {
        plain.push(custom[k]);
        proof {
            assert(custom@.take(k + 1) =~= custom@.take(k as int).push(custom@[k as int]));
            assert(plain@ =~= first + custom@.take(k + 1));
        }
        k += 1;
    }
    proof {
        assert(custom@.take(k as int) =~= custom@);
        assert(positions(plain@) =~= positions(first) + positions(custom@));
    }
    plain
}

/// The ID that one line of a configuration file gives.
pub open spec fn id_of_line(line: Seq<char>) -> Option<Seq<char>> {
    match text::after_prefix(text::trimmed(line), "ad.anynet.id="@) {
        Some(rest) => if text::trimmed(rest).len() > 0 {
            Some(text::trimmed(rest))
        } else {
            None
        },
        None => None,
    }
}

/// The first ID that a list of lines gives.
pub open spec fn id_of_lines(lines: Seq<Seq<char>>) -> Option<Seq<char>>
    decreases lines.len(),
{
    if lines.len() == 0 {
        None
    } else {
        match id_of_line(lines[0]) {
            Some(id) => Some(id),
            None => id_of_lines(lines.drop_first()),
        }
    }
}

/// The ID that a configuration file gives.
pub open spec fn id_of_conf(content: Seq<char>) -> Option<Seq<char>> {
    id_of_lines(text::pieces(content, '\n'))
}

/// The first ID that a list of configuration files gives.
pub open spec fn id_of_confs(contents: Seq<Seq<char>>) -> Option<Seq<char>>
    decreases contents.len(),
{
    if contents.len() == 0 {
        None
    } else {
        match id_of_conf(contents[0]) {
            Some(id) => Some(id),
            None => id_of_confs(contents.drop_first()),
        }
    }
}

fn parse_line(line: &str) -> (r: Option<String>)
    ensures
        text::view_option(r) == id_of_line(line@),
{
    match text::strip_prefix(text::trim(line).as_str(), "ad.anynet.id=") {
        Some(rest) => {
            let id = text::trim(rest.as_str());
            if id.as_str().is_empty() {
                None
            } else {
                Some(id)
            }
        },
        None => None,
    }
}

/// Reads the ID from the content of a `system.conf`.
pub fn parse_id_from_conf(content: &str) -> (r: Option<String>)
    ensures
        text::view_option(r) == id_of_conf(content@),
{
    let lines = text::split(content, '\n');
    let ghost all = text::texts(lines@);
    let mut i: usize = 0;
    proof {
        assert(all.skip(0) =~= all);
    }
    while i < lines.len()
        invariant
            i <= lines@.len(),
            all == text::texts(lines@),
            all == text::pieces(content@, '\n'),
            id_of_conf(content@) == id_of_lines(all.skip(i as int)),
        decreases lines@.len() - i,
    {
        proof {
            assert(all.skip(i as int)[0] == lines@[i as int]@);
            assert(all.skip(i as int).drop_first() =~= all.skip(i + 1));
        }
        if let Some(id) = parse_line(lines[i].as_str()) {
            return Some(id);
        }
        i += 1;
    }
    None
}

/// The first ID that the given configuration files hold.
pub fn get_id_from_system_conf(contents: &Vec<String>) -> (r: Option<String>)
    ensures
        text::view_option(r) == id_of_confs(text::texts(contents@)),
{
    let ghost all = text::texts(contents@);
    let mut i: usize = 0;
    proof {
        assert(all.skip(0) =~= all);
    }
    while i < contents.len()
        invariant
            i <= contents@.len(),
            all == text::texts(contents@),
            id_of_confs(all) == id_of_confs(all.skip(i as int)),
        decreases contents@.len() - i,
    {
        proof {
            assert(all.skip(i as int)[0] == contents@[i as int]@);
            assert(all.skip(i as int).drop_first() =~= all.skip(i + 1));
        }
        if let Some(id) = parse_id_from_conf(contents[i].as_str()) {
            return Some(id);
        }
        i += 1;
    }
    None
}

/// The ID that a program's output denotes: digits, with white space around them.
pub open spec fn id_of_output(out: Seq<char>) -> Option<Seq<char>> {
    let id = text::trimmed(out);
    if id.len() > 0 && numerals::all_digits(id) {
        Some(id)
    } else {
        None
    }
}

/// Reads the ID from what `--get-id` printed.
pub fn parse_id_from_output(out: &str) -> (r: Option<String>)
    ensures
        text::view_option(r) == id_of_output(out@),
{
    let id = text::trim(out);
    if id.as_str().is_empty() {
        return None;
    }
    let v = text::chars_of(id.as_str());
    let mut i: usize = 0;
    while i < v.len()
        invariant
            i <= v@.len(),
            v@ == id@,
            id@ == text::trimmed(out@),
            forall|j: int| 0 <= j < i ==> numerals::is_digit(#[trigger] id@[j]),
        decreases v@.len() - i,
    {
        if !('0' <= v[i] && v[i] <= '9') {
            proof {
                assert(!numerals::is_digit(id@[i as int]));
            }
            return None;
        }
        i += 1;
    }
    Some(id)
}

/// How a run of `AnyDesk.exe --get-id` ended.
pub struct CliRun {
    /// Whether the program reported success.
    pub success: bool,
    /// What it wrote to its standard output.
    pub stdout: Vec<u8>,
}

/// The ID that a run of the program gives.
pub open spec fn id_of_run(run: Option<CliRun>) -> Option<Seq<char>> {
    match run {
        Some(run) => if run.success {
            id_of_output(numerals::utf8_lossy(run.stdout@))
        } else {
            None
        },
        None => None,
    }
}

/// The ID that a run of `AnyDesk.exe --get-id` gives; `None` stands for a program that was not
/// found or did not start.
pub fn get_id_from_cli(run: &Option<CliRun>) -> (r: Option<String>)
    ensures
        text::view_option(r) == id_of_run(*run),
{
    match run {
        Some(run) => {
            if !run.success {
                return None;
            }
            parse_id_from_output(numerals::lossy_text(&run.stdout).as_str())
        },
        None => None,
    }
}

/// The ID that the configuration files give, in their order, or else a run of the program.
pub open spec fn local_id(contents: Seq<Seq<char>>, run: Option<CliRun>) -> Option<Seq<char>> {
    match id_of_confs(contents) {
        Some(id) => Some(id),
        None => id_of_run(run),
    }
}

/// Determines the local AnyDesk ID from the configuration files, in their order, and else from
/// the program's own answer. Never an error: a machine without AnyDesk has no ID.
pub fn get_id(contents: &Vec<String>, run: &Option<CliRun>) -> (r: Result<Option<String>, String>)
    ensures
        r is Ok,
        text::view_option(r->Ok_0) == local_id(text::texts(contents@), *run),
{
    if let Some(id) = get_id_from_system_conf(contents) {
        return Ok(Some(id));
    }
    if let Some(id) = get_id_from_cli(run) {
        return Ok(Some(id));
    }
    Ok(None)
}

proof fn id_of_lines_is_trimmed(lines: Seq<Seq<char>>)
    ensures
        match id_of_lines(lines) {
            Some(id) => text::is_trimmed(id) && id.len() > 0,
            None => true,
        },
    decreases lines.len(),
{
    if lines.len() > 0 {
        if let Some(rest) = text::after_prefix(text::trimmed(lines[0]), "ad.anynet.id="@) {
            text::trimming_leaves_no_edges(rest);
        }
        id_of_lines_is_trimmed(lines.drop_first());
    }
}

proof fn id_of_confs_is_trimmed(contents: Seq<Seq<char>>)
    ensures
        match id_of_confs(contents) {
            Some(id) => text::is_trimmed(id) && id.len() > 0,
            None => true,
        },
    decreases contents.len(),
{
    if contents.len() > 0 {
        id_of_lines_is_trimmed(text::pieces(contents[0], '\n'));
        id_of_confs_is_trimmed(contents.drop_first());
    }
}

/// An ID that is found is not empty, and no white space stands at its edges.
pub proof fn ids_are_trimmed(contents: Seq<Seq<char>>, run: Option<CliRun>)
    ensures
        match local_id(contents, run) {
            Some(id) => text::is_trimmed(id) && id.len() > 0,
            None => true,
        },
{
    id_of_confs_is_trimmed(contents);
    if let Some(run) = run {
        text::trimming_leaves_no_edges(numerals::utf8_lossy(run.stdout@));
    }
}

/// The directories are those of AnyDesk, and a standard installation comes before every custom
/// client.
pub proof fn standard_installation_comes_first(names: Seq<Seq<char>>, i: int, j: int)
    requires
        0 <= i < j < anydesk_dirs(names).len(),
    ensures
        0 <= anydesk_dirs(names)[i] < names.len(),
        0 <= anydesk_dirs(names)[j] < names.len(),
        is_plain_dir(names[anydesk_dirs(names)[i]]) || is_custom_dir(names[anydesk_dirs(names)[i]]),
        is_plain_dir(names[anydesk_dirs(names)[j]]) ==> is_plain_dir(
            names[anydesk_dirs(names)[i]],
        ),
{
    dirs_are_of_kind(names, true);
    dirs_are_of_kind(names, false);
    let plain = dirs_of_kind(names, true);
    let custom = dirs_of_kind(names, false);
    if i < plain.len() {
        assert(anydesk_dirs(names)[i] == plain[i]);
    } else {
        assert(anydesk_dirs(names)[i] == custom[i - plain.len()]);
    }
    if j < plain.len() {
        assert(anydesk_dirs(names)[j] == plain[j]);
    } else {
        assert(anydesk_dirs(names)[j] == custom[j - plain.len()]);
    }
}

proof fn dirs_are_of_kind(names: Seq<Seq<char>>, plain: bool)
    ensures
        forall|k: int|
            0 <= k < dirs_of_kind(names, plain).len() ==> 0 <= #[trigger] dirs_of_kind(
                names,
                plain,
            )[k] < names.len() && (if plain {
                is_plain_dir(names[dirs_of_kind(names, plain)[k]])
            } else {
                is_custom_dir(names[dirs_of_kind(names, plain)[k]])
            }),
    decreases names.len(),
{
    if names.len() > 0 {
        dirs_are_of_kind(names.drop_last(), plain);
        let before = dirs_of_kind(names.drop_last(), plain);
        assert forall|k: int| 0 <= k < dirs_of_kind(names, plain).len() implies 0
            <= #[trigger] dirs_of_kind(names, plain)[k] < names.len() && (if plain {
            is_plain_dir(names[dirs_of_kind(names, plain)[k]])
        } else {
            is_custom_dir(names[dirs_of_kind(names, plain)[k]])
        }) by {
            if k < before.len() {
                assert(dirs_of_kind(names, plain)[k] == before[k]);
                assert(names.drop_last()[before[k]] == names[before[k]]);
            }
        }
    }
}

/// A line that sets the ID gives it, whatever white space stands around the line and the ID.
pub proof fn the_line_of_the_id_is_read(
    a: Seq<char>,
    b: Seq<char>,
    id: Seq<char>,
    c: Seq<char>,
    content: &str,
    r: Option<String>,
)
    requires
        text::all_white(a) && !a.contains('\n'),
        text::all_white(b) && !b.contains('\n'),
        text::all_white(c) && !c.contains('\n'),
        id.len() > 0,
        text::is_trimmed(id),
        !id.contains('\n'),
        content@ == a + "ad.anynet.id="@ + b + id + c,
        call_ensures(parse_id_from_conf, (content,), r),
    ensures
        r is Some,
        (r->0)@ == id,
{
    reveal_strlit("ad.anynet.id=");
    let key = "ad.anynet.id="@;
    let inner = key + b + id;
    assert(content@ =~= a + inner + c);
    assert(inner[0] == 'a');
    assert(inner.last() == id.last());
    text::trimming_takes_off_white_space(a, inner, c);
    assert(inner.take(key.len() as int) =~= key);
    assert(inner.skip(key.len() as int) =~= b + id + Seq::<char>::empty());
    text::trimming_takes_off_white_space(b, id, Seq::empty());
    assert(!content@.contains('\n')) by {
        if content@.contains('\n') {
            let i = choose|i: int| 0 <= i < content@.len() && content@[i] == '\n';
            let n = a.len() as int;
            let k = n + key.len();
            let m = k + b.len();
            let e = m + id.len();
            if i < n {
                assert(a[i] == '\n');
            } else if i < k {
                assert(key[i - n] == '\n');
            } else if i < m {
                assert(b[i - k] == '\n');
            } else if i < e {
                assert(id[i - m] == '\n');
            } else {
                assert(c[i - e] == '\n');
            }
        }
    }
    text::splitting_cuts_at_separators(content@, '\n', Seq::empty());
    assert(text::pieces(content@, '\n')[0] == content@);
}

/// Lines that set no ID are passed over, and the first that does counts.
pub proof fn the_first_id_counts(line: Seq<char>, rest: Seq<char>)
    requires
        !line.contains('\n'),
    ensures
        id_of_line(line) is None ==> id_of_conf(line.push('\n') + rest) == id_of_conf(rest),
        id_of_line(line) is Some ==> id_of_conf(line.push('\n') + rest) == id_of_line(line),
        line.len() == 0 ==> id_of_line(line) is None,
{
    text::splitting_cuts_at_separators(line, '\n', rest);
    let all = text::pieces(line.push('\n') + rest, '\n');
    assert(all[0] == line);
    assert(all.drop_first() =~= text::pieces(rest, '\n'));
    if line.len() == 0 {
        reveal_strlit("ad.anynet.id=");
        assert(text::trimmed(line).len() == 0);
    }
}

/// What the program prints is an ID where it is a number with white space around it, and only
/// there; a run that failed gives none.
pub proof fn printed_ids_are_numbers(
    a: Seq<char>,
    id: Seq<char>,
    b: Seq<char>,
    out: &str,
    r: Option<String>,
    run: CliRun,
    none: Option<String>,
)
    requires
        text::all_white(a),
        text::all_white(b),
        id.len() > 0,
        text::is_trimmed(id),
        out@ == a + id + b,
        call_ensures(parse_id_from_output, (out,), r),
        !run.success,
        call_ensures(get_id_from_cli, (&Some(run),), none),
    ensures
        r is Some <==> forall|i: int| 0 <= i < id.len() ==> '0' <= #[trigger] id[i] <= '9',
        r is Some ==> (r->0)@ == id,
        none is None,
{
    text::trimming_takes_off_white_space(a, id, b);
    if forall|i: int| 0 <= i < id.len() ==> '0' <= #[trigger] id[i] <= '9' {
        assert(numerals::all_digits(id));
    }
    if numerals::all_digits(id) {
        assert forall|i: int| 0 <= i < id.len() implies '0' <= #[trigger] id[i] <= '9' by {
            assert(numerals::is_digit(id[i]));
        }
    }
}

/// The files go before the program, and the first file that gives an ID before the others.
pub proof fn files_go_before_the_program(
    contents: &Vec<String>,
    run: &Option<CliRun>,
    first: &str,
    id: Option<String>,
    printed: Option<String>,
    r: Result<Option<String>, String>,
)
    requires
        call_ensures(get_id, (contents, run), r),
        call_ensures(get_id_from_cli, (run,), printed),
        call_ensures(parse_id_from_conf, (first,), id),
    ensures
        r is Ok,
        contents@.len() > 0 && contents@[0]@ == first@ && id is Some ==> r->Ok_0 is Some && (
        (r->Ok_0)->0)@ == (id->0)@,
        contents@.len() == 0 ==> text::view_option(r->Ok_0) == text::view_option(printed),
        contents@.len() == 1 && contents@[0]@ == first@ && id is None ==> text::view_option(r->Ok_0)
            == text::view_option(printed),
{
    let all = text::texts(contents@);
    if contents@.len() > 0 {
        assert(all[0] == contents@[0]@);
    }
    if contents@.len() == 1 {
        assert(all.drop_first() =~= Seq::<Seq<char>>::empty());
        reveal_with_fuel(id_of_confs, 2);
    }
}

/// Exactly the directories named `AnyDesk`, or with a name that begins with `AnyDesk-`, are
/// found.
pub proof fn directories_are_known_by_name(names: Seq<Seq<char>>, i: int)
    requires
        0 <= i < names.len(),
    ensures
        anydesk_dirs(names).contains(i) <==> names[i] == "AnyDesk"@ || text::begins(
            names[i],
            "AnyDesk-"@,
        ),
{
    dirs_are_all_of_kind(names, true, i);
    dirs_are_all_of_kind(names, false, i);
    let p = dirs_of_kind(names, true);
    let c = dirs_of_kind(names, false);
    let all = anydesk_dirs(names);
    if p.contains(i) {
        let k = choose|k: int| 0 <= k < p.len() && p[k] == i;
        assert(all[k] == i);
    }
    if c.contains(i) {
        let k = choose|k: int| 0 <= k < c.len() && c[k] == i;
        assert(all[p.len() + k] == i);
    }
    if all.contains(i) {
        let k = choose|k: int| 0 <= k < all.len() && all[k] == i;
        if k < p.len() {
            assert(p[k] == i);
        } else {
            assert(c[k - p.len()] == i);
        }
    }
}

proof fn dirs_are_all_of_kind(names: Seq<Seq<char>>, plain: bool, i: int)
    requires
        0 <= i < names.len(),
    ensures
        dirs_of_kind(names, plain).contains(i) <==> (if plain {
            is_plain_dir(names[i])
        } else {
            is_custom_dir(names[i])
        }),
    decreases names.len(),
{
    let before = dirs_of_kind(names.drop_last(), plain);
    let now = dirs_of_kind(names, plain);
    dirs_are_of_kind(names.drop_last(), plain);
    dirs_are_of_kind(names, plain);
    if i < names.len() - 1 {
        dirs_are_all_of_kind(names.drop_last(), plain, i);
        assert(names.drop_last()[i] == names[i]);
        if before.contains(i) {
            let k = choose|k: int| 0 <= k < before.len() && before[k] == i;
            assert(now[k] == i);
        }
    } else if (if plain {
        is_plain_dir(names[i])
    } else {
        is_custom_dir(names[i])
    }) {
        assert(now[before.len() as int] == i);
    }
}

} // verus!
