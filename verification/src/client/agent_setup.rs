//! The prompt that sets up a repository to use wikidesk.

use vstd::prelude::*;

use crate::client::client_mirror;
use crate::client::client_mirror::{ClientMirror, Mirror};
use crate::client::{ClientError, Fault};
use crate::text;
use crate::views;

verus! {

/// What the prompt says before the server.
pub const HEAD: &'static str = r#"Configure this repository to use wikidesk.

Wikidesk keeps local wiki mirrors in configured relative paths. A local wiki mirror is managed by `wikidesk sync`; do not edit files inside it directly.

Use this server and wiki set:

```sh
export WIKIDESK_SERVER_URL="#;

/// What stands between the server and the wikis in the settings.
pub const WIKIS_LINE: &'static str = r#"
export WIKIDESK_WIKIS="#;

/// What stands between the settings and the wikis.
pub const LIST_HEAD: &'static str = r#"
wikidesk sync
```

Wikis to configure:
"#;

/// The steps, up to the rules for the agents.
pub const STEPS: &'static str = r#"

Do these steps:

1. Persist `WIKIDESK_SERVER_URL` and `WIKIDESK_WIKIS` in this repository's local environment mechanism, if it has one.
2. Run `wikidesk sync` once as a connection test. It should create or update the listed local mirror paths and place a `.gitignore` file in each one.
3. If this agent environment supports lifecycle hooks, configure them to run `wikidesk sync` before and after agent sessions or tool use. If hooks cannot be configured, mention in AGENTS.md or its counterpart that agents should run `wikidesk sync` at session start and end.
4. Update AGENTS.md, and any other agent instruction file that this repository uses, with brief wiki-use rules equivalent to:

```md
## Wikidesk

Local wiki mirrors are read-only directories managed by wikidesk:
"#;

/// The rule on the use of the mirrors.
pub const USE_RULE: &'static str = r#"

Use these local wiki mirrors before answering questions related to their topics. If a local mirror may not cover the full picture, including adjacent knowledge that may not have been researched yet, run the relevant research command:
"#;

/// The rest of the prompt.
pub const TAIL: &'static str = r#"

Never edit local wiki mirror files directly.
```

5. If this agent environment supports file permissions, deny writes under the listed local mirror paths. If it does not, rely on the AGENTS.md rule above.
"#;

/// The wikis in the settings: how their mirrors are written, with commas between.
pub open spec fn spec_list(wikis: Seq<Mirror>) -> Seq<char> {
    text::join(wikis.map_values(|wiki: Mirror| client_mirror::spec_of(wiki)), seq![','])
}

/// What is said of a wiki in the list.
pub open spec fn wiki_line(name: Seq<char>, path: Seq<char>, description: Seq<char>) -> Seq<char> {
    "- `"@ + name + "` (`"@ + path + "/`): "@ + text::compact(description)
}

/// The lines of the wikis, or the first that has no description.
pub open spec fn wiki_lines(wikis: Seq<Mirror>) -> Result<Seq<Seq<char>>, Fault>
    decreases wikis.len(),
{
    if wikis.len() == 0 {
        Ok(Seq::empty())
    } else {
        match wiki_lines(wikis.drop_last()) {
            Err(e) => Err(e),
            Ok(lines) => match wikis.last().description {
                Some(description) => Ok(
                    lines.push(
                        wiki_line(wikis.last().name, wikis.last().local_path, description),
                    ),
                ),
                None => Err(ClientError::NoDescription(wikis.last().name)),
            },
        }
    }
}

/// The command that asks a wiki a question.
pub open spec fn research_command(name: Seq<char>) -> Seq<char> {
    "- `wikidesk research -w "@ + name + " \"<question>\"`"@
}

/// The commands that ask the wikis questions.
pub open spec fn research_commands(wikis: Seq<Mirror>) -> Seq<char> {
    text::join(wikis.map_values(|wiki: Mirror| research_command(wiki.name)), seq!['\n'])
}

/// The prompt, or the first wiki that has no description.
pub open spec fn setup_prompt(server_url: Seq<char>, wikis: Seq<Mirror>) -> Result<
    Seq<char>,
    Fault,
> {
    match wiki_lines(wikis) {
        Err(e) => Err(e),
        Ok(lines) => {
            let list = text::join(lines, seq!['\n']);
            Ok(
                HEAD@ + server_url + WIKIS_LINE@ + spec_list(wikis) + LIST_HEAD@ + list + STEPS@
                    + list + USE_RULE@ + research_commands(wikis) + TAIL@,
            )
        },
    }
}

proof fn lemma_refused_line(wikis: Seq<Mirror>, k: int)
    requires
        0 <= k <= wikis.len(),
    ensures
        wiki_lines(wikis.take(k)) is Err ==> wiki_lines(wikis) == wiki_lines(wikis.take(k)),
    decreases wikis.len() - k,
{
    if k < wikis.len() {
        lemma_refused_line(wikis, k + 1);
        assert(wikis.take(k + 1).drop_last() =~= wikis.take(k));
    } else {
        assert(wikis.take(k) =~= wikis);
    }
}

fn described_lines(wikis: &Vec<ClientMirror>) -> (res: Result<Vec<String>, ClientError>)
    ensures
        views::outcome(res) == wiki_lines(wikis.deep_view()),
{
    let ghost all = wikis.deep_view();
    let n: usize = wikis.len();
    let mut lines: Vec<String> = Vec::new();
    let mut i: usize = 0;
    assert(all.take(0) =~= Seq::empty());
    assert(lines.deep_view() =~= Seq::empty());
    while i < n
        invariant
            n == wikis@.len(),
            i <= n,
            all == wikis.deep_view(),
            wiki_lines(all.take(i as int)) == Ok::<_, Fault>(lines.deep_view()),
        decreases n - i,
    {
        proof {
            assert(all.take(i + 1).drop_last() =~= all.take(i as int));
            assert(all.take(i + 1).last() == wikis@[i as int].deep_view());
            lemma_refused_line(all, i + 1);
        }
        let description = match wikis[i].description() {
            Ok(description) => description,
            Err(e) => return Err(e),
        };
        let line = "- `".to_string().concat(wikis[i].name.as_str()).concat("` (`").concat(
            wikis[i].local_path.as_str(),
        ).concat("/`): ").concat(compact_whitespace(description.as_str()).as_str());
        let ghost before = lines.deep_view();
        let ghost shown = line@;
        lines.push(line);
        assert(lines.deep_view() =~= before.push(shown));
        i = i + 1;
    }
    assert(all.take(n as int) =~= all);
    Ok(lines)
}

fn written_specs(wikis: &Vec<ClientMirror>) -> (res: Vec<String>)
    ensures
        res.deep_view() == wikis.deep_view().map_values(
            |wiki: Mirror| client_mirror::spec_of(wiki),
        ),
{
    let ghost all = wikis.deep_view().map_values(|wiki: Mirror| client_mirror::spec_of(wiki));
    let n: usize = wikis.len();
    let mut out: Vec<String> = Vec::new();
    let mut i: usize = 0;
    while i < n
        invariant
            n == wikis@.len(),
            i <= n,
            all == wikis.deep_view().map_values(|wiki: Mirror| client_mirror::spec_of(wiki)),
            out.deep_view() =~= all.take(i as int),
        decreases n - i,
    {
        assert(wikis.deep_view()[i as int] == wikis@[i as int].deep_view());
        let ghost before = out.deep_view();
        let spec = wikis[i].spec();
        let ghost shown = spec@;
        out.push(spec);
        assert(out.deep_view() =~= before.push(shown));
        i = i + 1;
    }
    assert(all.take(n as int) =~= all);
    out
}

fn command_lines(wikis: &Vec<ClientMirror>) -> (res: Vec<String>)
    ensures
        res.deep_view() == wikis.deep_view().map_values(
            |wiki: Mirror| research_command(wiki.name),
        ),
{
    let ghost all = wikis.deep_view().map_values(|wiki: Mirror| research_command(wiki.name));
    let n: usize = wikis.len();
    let mut out: Vec<String> = Vec::new();
    let mut i: usize = 0;
    while i < n
        invariant
            n == wikis@.len(),
            i <= n,
            all == wikis.deep_view().map_values(|wiki: Mirror| research_command(wiki.name)),
            out.deep_view() =~= all.take(i as int),
        decreases n - i,
    {
        assert(wikis.deep_view()[i as int] == wikis@[i as int].deep_view());
        let ghost before = out.deep_view();
        let command = "- `wikidesk research -w ".to_string().concat(
            wikis[i].name.as_str(),
        ).concat(" \"<question>\"`");
        let ghost shown = command@;
        out.push(command);
        assert(out.deep_view() =~= before.push(shown));
        i = i + 1;
    }
    assert(all.take(n as int) =~= all);
    out
}

/// The prompt that sets up a repository to use the wikis of a server.
pub fn render_agent_setup_prompt(server_url: &str, wikis: &Vec<ClientMirror>) -> (res: Result<
    String,
    ClientError,
>)
    ensures
        views::outcome(res) == setup_prompt(server_url@, wikis.deep_view()),
{
    proof {
        reveal_strlit(",");
        reveal_strlit("\n");
        assert(","@ =~= seq![',']);
        assert("\n"@ =~= seq!['\n']);
    }
    let wiki_names = text::joined(&written_specs(wikis), ",");
    let wiki_list = match described_lines(wikis) {
        Ok(lines) => text::joined(&lines, "\n"),
        Err(e) => return Err(e),
    };
    let commands = text::joined(&command_lines(wikis), "\n");
    Ok(
        HEAD.to_string().concat(server_url).concat(WIKIS_LINE).concat(wiki_names.as_str()).concat(
            LIST_HEAD,
        ).concat(wiki_list.as_str()).concat(STEPS).concat(wiki_list.as_str()).concat(
            USE_RULE,
        ).concat(commands.as_str()).concat(TAIL),
    )
}

/// A text with its words set one blank apart.
pub fn compact_whitespace(value: &str) -> (res: String)
    ensures
        res@ == text::compact(value@),
{
    text::compacted(value)
}

/// What is said of a wiki: its name, its path and its description on one line, and the command that
/// asks it a question.
pub proof fn wikis_are_told_on_a_line(name: Seq<char>, path: Seq<char>, description: Seq<char>)
    ensures
        wiki_line(name, path, description) == "- `"@ + name + "` (`"@ + path + "/`): "@
            + text::compact(description),
        research_command(name) == "- `wikidesk research -w "@ + name + " \"<question>\"`"@,
{
}

/// The wikis are told in their order, one on a line; the first without a description is refused.
pub proof fn wikis_are_told_in_their_order(
    wikis: Seq<Mirror>,
    wiki: Mirror,
    description: Seq<char>,
)
    requires
        wiki_lines(wikis) is Ok,
    ensures
        wiki_lines(Seq::empty()) == Ok::<_, Fault>(Seq::<Seq<char>>::empty()),
        wiki_lines(wikis.push(ClientMirror { description: Some(description), ..wiki })) == Ok::<
            _,
            Fault,
        >(wiki_lines(wikis)->Ok_0.push(wiki_line(wiki.name, wiki.local_path, description))),
        wiki_lines(wikis.push(ClientMirror { description: None, ..wiki })) == Err::<
            Seq<Seq<char>>,
            _,
        >(ClientError::NoDescription(wiki.name)),
        setup_prompt(description, wikis.push(ClientMirror { description: None, ..wiki })) == Err::<
            Seq<char>,
            _,
        >(ClientError::NoDescription(wiki.name)),
{
    let with = wikis.push(ClientMirror { description: Some(description), ..wiki });
    let without = wikis.push(ClientMirror { description: None, ..wiki });
    assert(with.drop_last() =~= wikis);
    assert(without.drop_last() =~= wikis);
}

/// The prompt sets the two variables to the server and to the wikis as they are written, tells the
/// wikis for the configuration and again for the agents, and ends with the command of every wiki and
/// the rule that mirrors are not edited.
pub proof fn prompts_set_up_the_wikis(server: Seq<char>, wikis: Seq<Mirror>)
    requires
        wiki_lines(wikis) is Ok,
    ensures
        ({
            let list = text::join(wiki_lines(wikis)->Ok_0, "\n"@);
            let specs = text::join(
                wikis.map_values(|wiki: Mirror| client_mirror::spec_of(wiki)),
                ","@,
            );
            let commands = text::join(
                wikis.map_values(|wiki: Mirror| research_command(wiki.name)),
                "\n"@,
            );
            let prompt = setup_prompt(server, wikis);
            let settings = "export WIKIDESK_SERVER_URL="@ + server + "\nexport WIKIDESK_WIKIS="@
                + specs + "\nwikidesk sync\n"@;
            &&& prompt is Ok
            &&& text::contains(prompt->Ok_0, settings)
            &&& text::contains(prompt->Ok_0, "Wikis to configure:\n"@ + list)
            &&& text::contains(
                prompt->Ok_0,
                "Local wiki mirrors are read-only directories managed by wikidesk:\n"@ + list,
            )
            &&& text::contains(
                prompt->Ok_0,
                "run the relevant research command:\n"@ + commands
                    + "\n\nNever edit local wiki mirror files directly.\n"@,
            )
        }),
{
    reveal_strlit(",");
    reveal_strlit("\n");
    assert(","@ =~= seq![',']);
    assert("\n"@ =~= seq!['\n']);
    let list = text::join(wiki_lines(wikis)->Ok_0, "\n"@);
    let specs = spec_list(wikis);
    let commands = research_commands(wikis);
    let prompt = setup_prompt(server, wikis)->Ok_0;
    lemma_heads();
    lemma_steps();
    lemma_rules();
    let a = HEAD@.take(HEAD@.len() - 27);
    let settings = "export WIKIDESK_SERVER_URL="@ + server + "\nexport WIKIDESK_WIKIS="@ + specs
        + "\nwikidesk sync\n"@;
    let after_settings = LIST_HEAD@.skip(15) + list + STEPS@ + list + USE_RULE@ + commands + TAIL@;
    assert(prompt =~= a + settings + after_settings);
    lemma_stands(a, settings, after_settings);
    let first = "Wikis to configure:\n"@ + list;
    let b = HEAD@ + server + WIKIS_LINE@ + specs + LIST_HEAD@.take(LIST_HEAD@.len() - 20);
    let after_first = STEPS@ + list + USE_RULE@ + commands + TAIL@;
    assert(prompt =~= b + first + after_first);
    lemma_stands(b, first, after_first);
    let rule = "Local wiki mirrors are read-only directories managed by wikidesk:\n"@;
    let second = rule + list;
    let c = HEAD@ + server + WIKIS_LINE@ + specs + LIST_HEAD@ + list + STEPS@.take(
        STEPS@.len() - rule.len(),
    );
    let after_second = USE_RULE@ + commands + TAIL@;
    assert(prompt =~= c + second + after_second);
    lemma_stands(c, second, after_second);
    let run = "run the relevant research command:\n"@;
    let never = "\n\nNever edit local wiki mirror files directly.\n"@;
    let third = run + commands + never;
    let d = HEAD@ + server + WIKIS_LINE@ + specs + LIST_HEAD@ + list + STEPS@ + list
        + USE_RULE@.take(USE_RULE@.len() - run.len());
    let after_third = TAIL@.skip(never.len() as int);
    assert(prompt =~= d + third + after_third);
    lemma_stands(d, third, after_third);
}

proof fn lemma_stands(before: Seq<char>, part: Seq<char>, after: Seq<char>)
    ensures
        text::contains(before + part + after, part),
{
    let whole = before + part + after;
    let n = before.len() as int;
    assert(whole.subrange(n, n + part.len()) =~= part);
    assert(text::occurs_at(whole, part, n));
}

proof fn lemma_heads()
    ensures
        HEAD@.len() > 27,
        HEAD@.skip(HEAD@.len() - 27) == "export WIKIDESK_SERVER_URL="@,
        WIKIS_LINE@ == "\nexport WIKIDESK_WIKIS="@,
        LIST_HEAD@.len() > 35,
        LIST_HEAD@.take(15) == "\nwikidesk sync\n"@,
        LIST_HEAD@.skip(LIST_HEAD@.len() - 20) == "Wikis to configure:\n"@,
{
    reveal_strlit(r#"Configure this repository to use wikidesk.

Wikidesk keeps local wiki mirrors in configured relative paths. A local wiki mirror is managed by `wikidesk sync`; do not edit files inside it directly.

Use this server and wiki set:

```sh
export WIKIDESK_SERVER_URL="#);
    reveal_strlit(r#"
export WIKIDESK_WIKIS="#);
    reveal_strlit(r#"
wikidesk sync
```

Wikis to configure:
"#);
    reveal_strlit("export WIKIDESK_SERVER_URL=");
    reveal_strlit("\nexport WIKIDESK_WIKIS=");
    reveal_strlit("\nwikidesk sync\n");
    reveal_strlit("Wikis to configure:\n");
    assert(HEAD@.skip(HEAD@.len() - 27) =~= "export WIKIDESK_SERVER_URL="@);
    assert(WIKIS_LINE@ =~= "\nexport WIKIDESK_WIKIS="@);
    assert(LIST_HEAD@.take(15) =~= "\nwikidesk sync\n"@);
    assert(LIST_HEAD@.skip(LIST_HEAD@.len() - 20) =~= "Wikis to configure:\n"@);
}

proof fn lemma_steps()
    ensures
        ({
            let rule = "Local wiki mirrors are read-only directories managed by wikidesk:\n"@;
            STEPS@.len() > rule.len() && STEPS@.skip(STEPS@.len() - rule.len()) == rule
        }),
{
    reveal_strlit(r#"

Do these steps:

1. Persist `WIKIDESK_SERVER_URL` and `WIKIDESK_WIKIS` in this repository's local environment mechanism, if it has one.
2. Run `wikidesk sync` once as a connection test. It should create or update the listed local mirror paths and place a `.gitignore` file in each one.
3. If this agent environment supports lifecycle hooks, configure them to run `wikidesk sync` before and after agent sessions or tool use. If hooks cannot be configured, mention in AGENTS.md or its counterpart that agents should run `wikidesk sync` at session start and end.
4. Update AGENTS.md, and any other agent instruction file that this repository uses, with brief wiki-use rules equivalent to:

```md
## Wikidesk

Local wiki mirrors are read-only directories managed by wikidesk:
"#);
    reveal_strlit("Local wiki mirrors are read-only directories managed by wikidesk:\n");
    let rule = "Local wiki mirrors are read-only directories managed by wikidesk:\n"@;
    assert(STEPS@.skip(STEPS@.len() - rule.len()) =~= rule);
}

proof fn lemma_rules()
    ensures
        ({
            let run = "run the relevant research command:\n"@;
            USE_RULE@.len() > run.len() && USE_RULE@.skip(USE_RULE@.len() - run.len()) == run
        }),
        ({
            let never = "\n\nNever edit local wiki mirror files directly.\n"@;
            TAIL@.len() > never.len() && TAIL@.take(never.len() as int) == never
        }),
{
    reveal_strlit(r#"

Use these local wiki mirrors before answering questions related to their topics. If a local mirror may not cover the full picture, including adjacent knowledge that may not have been researched yet, run the relevant research command:
"#);
    reveal_strlit(r#"

Never edit local wiki mirror files directly.
```

5. If this agent environment supports file permissions, deny writes under the listed local mirror paths. If it does not, rely on the AGENTS.md rule above.
"#);
    reveal_strlit("run the relevant research command:\n");
    reveal_strlit("\n\nNever edit local wiki mirror files directly.\n");
    let run = "run the relevant research command:\n"@;
    assert(USE_RULE@.skip(USE_RULE@.len() - run.len()) =~= run);
    let never = "\n\nNever edit local wiki mirror files directly.\n"@;
    assert(TAIL@.take(never.len() as int) =~= never);
}

} // verus!
