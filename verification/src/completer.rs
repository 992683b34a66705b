//! Tab completion for the interactive shell: the table of commands with
//! their usage lines, the short aliases, and the completion function that
//! offers commands, HTTP verbs and option flags for a partially typed
//! line.  The line-editor hookup is application glue.

use vstd::prelude::*;

verus! {

use vstd::string::StringExecFns;
use vstd::string::StrSliceExecFns;
use crate::text::contains_seq;
use crate::text::is_prefix_of;
use crate::text::last_token;
use crate::text::last_token_of;
use crate::text::lemma_views_of_push;
use crate::text::str_contains;
use crate::text::str_eq;
use crate::text::str_starts_with;
use crate::text::views_of;

pub struct NutsCompleter {
    /// Command names, each with its usage line.
    pub commands: Vec<(String, String)>,
    /// Short alias and what it expands to.
    pub aliases: Vec<(String, String)>,
}

impl NutsCompleter {
    /// The full completion table: every command of the shell and the five
    /// one-letter aliases.
    pub fn new() -> (r: NutsCompleter)
        ensures
            r.commands@.len() == 17,
            r.commands@[0].0@ == "call"@,
            r.commands@[1].0@ == "perf"@,
            r.commands@[2].0@ == "security"@,
            r.commands@[3].0@ == "collection new"@,
            r.commands@[4].0@ == "collection add"@,
            r.commands@[5].0@ == "collection run"@,
            r.commands@[6].0@ == "collection docs"@,
            r.commands@[7].0@ == "collection mock"@,
            r.commands@[8].0@ == "collection list"@,
            r.commands@[9].0@ == "collection configure_mock_data"@,
            r.commands@[10].0@ == "collection story"@,
            r.commands@[11].0@ == "collection s"@,
            r.commands@[12].0@ == "save"@,
            r.commands@[13].0@ == "config api-key"@,
            r.commands@[14].0@ == "config show"@,
            r.commands@[15].0@ == "help"@,
            r.commands@[16].0@ == "exit"@,
            r.aliases@.len() == 5,
            r.aliases@[0].0@ == "c"@ && r.aliases@[0].1@ == "call"@,
            r.aliases@[1].0@ == "p"@ && r.aliases@[1].1@ == "perf"@,
            r.aliases@[2].0@ == "s"@ && r.aliases@[2].1@ == "collection story"@,
            r.aliases@[3].0@ == "h"@ && r.aliases@[3].1@ == "help"@,
            r.aliases@[4].0@ == "q"@ && r.aliases@[4].1@ == "quit"@,
    {
        let mut commands: Vec<(String, String)> = Vec::new();
        // Core API testing
        commands.push(("call".to_owned(), "call <METHOD> <URL> [BODY]".to_owned()));
        commands.push(("perf".to_owned(), "perf <URL> [--users N] [--duration Ns]".to_owned()));
        commands.push(("security".to_owned(), "security <URL> [OPTIONS]".to_owned()));
        // Collection management
        commands.push(("collection new".to_owned(), "collection new <name>".to_owned()));
        commands.push(
            ("collection add".to_owned(), "collection add <name> <METHOD> <path>".to_owned()),
        );
        commands.push(("collection run".to_owned(), "collection run <name> <endpoint>".to_owned()));
        commands.push(("collection docs".to_owned(), "collection docs <name> [format]".to_owned()));
        commands.push(("collection mock".to_owned(), "collection mock <name> [port]".to_owned()));
        commands.push(("collection list".to_owned(), "list all collections".to_owned()));
        commands.push(
            (
                "collection configure_mock_data".to_owned(),
                "collection configure_mock_data <name> <endpoint>".to_owned(),
            ),
        );
        commands.push(("collection story".to_owned(), "collection story <name>".to_owned()));
        commands.push(("collection s".to_owned(), "collection s <name>".to_owned()));
        commands.push(("save".to_owned(), "save <collection> <name>".to_owned()));
        // Configuration and shell
        commands.push(("config api-key".to_owned(), "store the API key".to_owned()));
        commands.push(("config show".to_owned(), "show the current configuration".to_owned()));
        commands.push(("help".to_owned(), "show the help message".to_owned()));
        commands.push(("exit".to_owned(), "leave the shell".to_owned()));
        let mut aliases: Vec<(String, String)> = Vec::new();
        aliases.push(("c".to_owned(), "call".to_owned()));
        aliases.push(("p".to_owned(), "perf".to_owned()));
        aliases.push(("s".to_owned(), "collection story".to_owned()));
        aliases.push(("h".to_owned(), "help".to_owned()));
        aliases.push(("q".to_owned(), "quit".to_owned()));
        NutsCompleter { commands, aliases }
    }

    /// The base command words completion draws from.
    pub open spec fn base_command_names() -> Seq<Seq<char>> {
        seq!["call"@, "perf"@, "mock"@, "security"@, "collection"@, "configure"@, "help"@, "exit"@]
    }

    /// The collection subcommands completion draws from.
    pub open spec fn collection_command_names() -> Seq<Seq<char>> {
        seq![
            "collection new"@,
            "collection add"@,
            "collection run"@,
            "collection mock"@,
            "collection perf"@,
            "collection docs"@,
            "collection list"@,
        ]
    }

    /// The HTTP verbs offered after `call ` or `perf `.
    pub open spec fn method_names() -> Seq<Seq<char>> {
        seq!["GET"@, "POST"@, "PUT"@, "DELETE"@, "PATCH"@]
    }

    /// The option flags offered on `perf` and `security` lines.
    pub open spec fn option_names() -> Seq<Seq<char>> {
        seq!["--analyze"@, "--users"@, "--duration"@, "--deep"@]
    }

    /// The expansion of the first alias whose key is exactly `line`, as a
    /// sequence of zero or one completions.
    pub open spec fn alias_matches(entries: Seq<(String, String)>, line: Seq<char>) -> Seq<
        Seq<char>,
    >
        decreases entries.len(),
    {
        if entries.len() == 0 {
            Seq::empty()
        } else if entries.first().0@ == line {
            seq![entries.first().1@]
        } else {
            Self::alias_matches(entries.drop_first(), line)
        }
    }

    /// The candidates of `cands` that `probe` is a prefix of, in order.
    pub open spec fn prefixed(cands: Seq<Seq<char>>, probe: Seq<char>) -> Seq<Seq<char>>
        decreases cands.len(),
    {
        if cands.len() == 0 {
            Seq::empty()
        } else {
            let rest = Self::prefixed(cands.drop_last(), probe);
            if is_prefix_of(probe, cands.last()) {
                rest.push(cands.last())
            } else {
                rest
            }
        }
    }

    /// Like `prefixed`, but each offered candidate is prefixed with `head`
    /// (the typed command word and its space).
    pub open spec fn prefixed_with_head(
        cands: Seq<Seq<char>>,
        probe: Seq<char>,
        head: Seq<char>,
    ) -> Seq<Seq<char>>
        decreases cands.len(),
    {
        if cands.len() == 0 {
            Seq::empty()
        } else {
            let rest = Self::prefixed_with_head(cands.drop_last(), probe, head);
            if is_prefix_of(probe, cands.last()) {
                rest.push(head + cands.last())
            } else {
                rest
            }
        }
    }

    /// Everything completion offers for the typed line, in order: the
    /// expansion of an exactly matching alias; the base commands and the
    /// collection subcommands the line is a prefix of; after `call ` or
    /// `perf `, the HTTP verbs the rest of the line is a prefix of, each
    /// behind the typed command word; and, when the line mentions `perf`
    /// or `security`, the option flags the line's last token is a prefix
    /// of.
    pub open spec fn completions_for(&self, line: Seq<char>) -> Seq<Seq<char>> {
        Self::alias_matches(self.aliases@, line) + Self::prefixed(Self::base_command_names(), line)
            + Self::prefixed(Self::collection_command_names(), line) + (if is_prefix_of(
            "call "@,
            line,
        ) || is_prefix_of("perf "@, line) {
            Self::prefixed_with_head(
                Self::method_names(),
                line.subrange(5, line.len() as int),
                line.subrange(0, 5),
            )
        } else {
            Seq::empty()
        }) + (if contains_seq(line, "perf"@) || contains_seq(line, "security"@) {
            Self::prefixed(Self::option_names(), last_token(line))
        } else {
            Seq::empty()
        })
    }

    /// The completions for a partially typed line, exactly the sets and
    /// order of `completions_for`.
    pub fn get_command_completions(&self, line: &str) -> (r: Vec<String>)
        ensures
            views_of(r@) == self.completions_for(line@),
    {
        let mut r: Vec<String> = Vec::new();
        // An exactly matching alias expands first.
        let mut hit: usize = self.aliases.len();
        let mut j: usize = 0;
        while j < self.aliases.len()
            invariant
                j <= self.aliases@.len(),
                hit == self.aliases@.len() || hit < j,
                hit == self.aliases@.len() ==> forall|i: int|
                    0 <= i < j ==> (#[trigger] self.aliases@[i]).0@ != line@,
                hit < self.aliases@.len() ==> self.aliases@[hit as int].0@ == line@ && forall|
                    i: int,
                |
                    0 <= i < hit ==> (#[trigger] self.aliases@[i]).0@ != line@,
            decreases self.aliases@.len() - j,
        {
            if hit == self.aliases.len() && str_eq(line, self.aliases[j].0.as_str()) {
                hit = j;
            }
            j = j + 1;
        }
        if hit < self.aliases.len() {
            let ghost empty_r: Seq<String> = r@;
            r.push(self.aliases[hit].1.clone());
            proof {
                lemma_alias_matches_skip(self.aliases@, line@, hit as int);
                assert(self.aliases@.skip(hit as int).first() == self.aliases@[hit as int]);
                lemma_views_of_push(empty_r, r@.last());
                assert(views_of(empty_r) =~= Seq::<Seq<char>>::empty());
                assert(views_of(r@) =~= Self::alias_matches(self.aliases@, line@));
            }
        } else {
            proof {
                lemma_alias_matches_skip(self.aliases@, line@, self.aliases@.len() as int);
                assert(self.aliases@.skip(self.aliases@.len() as int) =~= Seq::<(
                    String,
                    String,
                )>::empty());
                assert(views_of(r@) =~= Self::alias_matches(self.aliases@, line@));
            }
        }
        // Base commands the line is a prefix of.
        let mut base: Vec<&'static str> = Vec::new();
        base.push("call");
        base.push("perf");
        base.push("mock");
        base.push("security");
        base.push("collection");
        base.push("configure");
        base.push("help");
        base.push("exit");
        push_prefix_matches(&base, line, &mut r, Ghost(Self::base_command_names()));
        // Collection subcommands the line is a prefix of.
        let mut subcommands: Vec<&'static str> = Vec::new();
        subcommands.push("collection new");
        subcommands.push("collection add");
        subcommands.push("collection run");
        subcommands.push("collection mock");
        subcommands.push("collection perf");
        subcommands.push("collection docs");
        subcommands.push("collection list");
        push_prefix_matches(&subcommands, line, &mut r, Ghost(Self::collection_command_names()));
        // HTTP verbs after "call " or "perf ", behind the typed word.
        if str_starts_with(line, "call ") || str_starts_with(line, "perf ") {
            proof {
                reveal_strlit("call ");
                reveal_strlit("perf ");
            }
            let head = line.substring_char(0, 5);
            let probe = line.substring_char(5, line.unicode_len());
            let mut methods: Vec<&'static str> = Vec::new();
            methods.push("GET");
            methods.push("POST");
            methods.push("PUT");
            methods.push("DELETE");
            methods.push("PATCH");
            push_method_matches(&methods, probe, head, &mut r, Ghost(Self::method_names()));
        }
        // Option flags when the line mentions perf or security.
        if str_contains(line, "perf") || str_contains(line, "security") {
            let token = last_token_of(line);
            let mut options: Vec<&'static str> = Vec::new();
            options.push("--analyze");
            options.push("--users");
            options.push("--duration");
            options.push("--deep");
            push_prefix_matches(&options, token, &mut r, Ghost(Self::option_names()));
        }
        proof {
            assert(views_of(r@) =~= self.completions_for(line@));
        }
        r
    }
}

/// Skipping alias rows whose keys do not match leaves the match result
/// unchanged.
proof fn lemma_alias_matches_skip(entries: Seq<(String, String)>, line: Seq<char>, j: int)
    requires
        0 <= j <= entries.len(),
        forall|i: int| 0 <= i < j ==> (#[trigger] entries[i]).0@ != line,
    ensures
        NutsCompleter::alias_matches(entries, line) == NutsCompleter::alias_matches(
            entries.skip(j),
            line,
        ),
    decreases j,
{
    if j > 0 {
        lemma_alias_matches_skip(entries, line, j - 1);
        assert(entries.skip(j - 1).first() == entries[j - 1]);
        assert(entries.skip(j - 1).drop_first() =~= entries.skip(j));
    } else {
        assert(entries.skip(0) =~= entries);
    }
}

/// Appends to `r` the candidates `probe` is a prefix of, in order.  The
/// ghost `model` carries the candidates' views, so the caller's contract
/// can speak of its fixed spec-level list.
fn push_prefix_matches(
    cands: &Vec<&'static str>,
    probe: &str,
    r: &mut Vec<String>,
    Ghost(model): Ghost<Seq<Seq<char>>>,
)
    requires
        cands@.len() == model.len(),
        forall|k: int| 0 <= k < model.len() ==> (#[trigger] cands@[k])@ == model[k],
    ensures
        views_of(final(r)@) == views_of(old(r)@) + NutsCompleter::prefixed(model, probe@),
{
    let ghost base = old(r)@;
    let mut i: usize = 0;
    proof {
        assert(model.take(0) =~= Seq::<Seq<char>>::empty());
        assert(views_of(r@) =~= views_of(base) + NutsCompleter::prefixed(model.take(0), probe@));
    }
    while i < cands.len()
        invariant
            i <= cands@.len(),
            cands@.len() == model.len(),
            forall|k: int| 0 <= k < model.len() ==> (#[trigger] cands@[k])@ == model[k],
            views_of(r@) == views_of(base) + NutsCompleter::prefixed(model.take(i as int), probe@),
        decreases cands@.len() - i,
    {
        proof {
            assert(model.take(i + 1).drop_last() =~= model.take(i as int));
        }
        if str_starts_with(cands[i], probe) {
            let ghost before = r@;
            r.push(cands[i].to_owned());
            proof {
                lemma_views_of_push(before, r@.last());
                assert(views_of(r@) =~= views_of(base) + NutsCompleter::prefixed(
                    model.take(i + 1),
                    probe@,
                ));
            }
        }
        i = i + 1;
    }
    proof {
        assert(model.take(model.len() as int) =~= model);
    }
}

/// Appends to `r` the candidates `probe` is a prefix of, each prefixed
/// with `head` (the typed command word and its trailing space).
fn push_method_matches(
    cands: &Vec<&'static str>,
    probe: &str,
    head: &str,
    r: &mut Vec<String>,
    Ghost(model): Ghost<Seq<Seq<char>>>,
)
    requires
        cands@.len() == model.len(),
        forall|k: int| 0 <= k < model.len() ==> (#[trigger] cands@[k])@ == model[k],
    ensures
        views_of(final(r)@) == views_of(old(r)@) + NutsCompleter::prefixed_with_head(
            model,
            probe@,
            head@,
        ),
{
    let ghost base = old(r)@;
    let mut i: usize = 0;
    proof {
        assert(model.take(0) =~= Seq::<Seq<char>>::empty());
        assert(views_of(r@) =~= views_of(base) + NutsCompleter::prefixed_with_head(
            model.take(0),
            probe@,
            head@,
        ));
    }
    while i < cands.len()
        invariant
            i <= cands@.len(),
            cands@.len() == model.len(),
            forall|k: int| 0 <= k < model.len() ==> (#[trigger] cands@[k])@ == model[k],
            views_of(r@) == views_of(base) + NutsCompleter::prefixed_with_head(
                model.take(i as int),
                probe@,
                head@,
            ),
        decreases cands@.len() - i,
    {
        proof {
            assert(model.take(i + 1).drop_last() =~= model.take(i as int));
        }
        if str_starts_with(cands[i], probe) {
            let ghost before = r@;
            r.push(head.to_owned().concat(cands[i]));
            proof {
                lemma_views_of_push(before, r@.last());
                assert(views_of(r@) =~= views_of(base) + NutsCompleter::prefixed_with_head(
                    model.take(i + 1),
                    probe@,
                    head@,
                ));
            }
        }
        i = i + 1;
    }
    proof {
        assert(model.take(model.len() as int) =~= model);
    }
}

} // verus!
