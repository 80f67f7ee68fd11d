//! Flags that may change or be removed without notice.
use vstd::prelude::*;

use crate::style::{bold, underlined, yellow};
use crate::text::join;

verus! {

#[derive(Debug, Clone, Copy)]
pub struct ExperimentalArgs {
    /// Whether valgrind schedules threads fairly.
    pub experimental_fair_sched: bool,
    /// Has no effect any more: cycles are estimated by default.
    pub experimental_cycle_estimation: bool,
    /// Has no effect any more: whether allocations are left out is set otherwise.
    pub experimental_exclude_allocations: bool,
}

/// A flag that has no effect any more: the flag, what it was for and the flag that is for it now.
pub type DeprecatedFlag = (&'static str, &'static str, &'static str);

impl ExperimentalArgs {
    /// The names of all flags that are set, those without effect among them.
    pub open spec fn active(self) -> Seq<Seq<char>> {
        (if self.experimental_fair_sched {
            seq!["--experimental-fair-sched"@]
        } else {
            seq![]
        }) + (if self.experimental_cycle_estimation {
            seq!["--experimental-cycle-estimation"@]
        } else {
            seq![]
        }) + (if self.experimental_exclude_allocations {
            seq!["--experimental-exclude-allocations"@]
        } else {
            seq![]
        })
    }

    /// The flags that are set but have no effect any more.
    pub open spec fn deprecated(self) -> Seq<(Seq<char>, Seq<char>, Seq<char>)> {
        (if self.experimental_cycle_estimation {
            seq![
                (
                    "--experimental-cycle-estimation"@,
                    "cycle estimation"@,
                    "--cycle-estimation"@,
                ),
            ]
        } else {
            seq![]
        }) + (if self.experimental_exclude_allocations {
            seq![
                (
                    "--experimental-exclude-allocations"@,
                    "allocation exclusion"@,
                    "--exclude-allocations"@,
                ),
            ]
        } else {
            seq![]
        })
    }

    /// The names of all flags that are set, which a warning is given about.
    pub fn active_flags(&self) -> (r: Vec<&'static str>)
        ensures
            Seq::new(r@.len(), |i: int| r@[i]@) == self.active(),
    {
        let mut flags: Vec<&'static str> = Vec::new();
        if self.experimental_fair_sched {
            flags.push("--experimental-fair-sched");
        }
        if self.experimental_cycle_estimation {
            flags.push("--experimental-cycle-estimation");
        }
        if self.experimental_exclude_allocations {
            flags.push("--experimental-exclude-allocations");
        }
        assert(Seq::new(flags@.len(), |i: int| flags@[i]@) =~= self.active());
        flags
    }

    /// The flags that are set but have no effect any more, which a warning is given about.
    pub fn deprecated_flags(&self) -> (r: Vec<DeprecatedFlag>)
        ensures
            Seq::new(r@.len(), |i: int| (r@[i].0@, r@[i].1@, r@[i].2@)) == self.deprecated(),
    {
        let mut flags: Vec<DeprecatedFlag> = Vec::new();
        if self.experimental_cycle_estimation {
            flags.push(
                ("--experimental-cycle-estimation", "cycle estimation", "--cycle-estimation"),
            );
        }
        if self.experimental_exclude_allocations {
            flags.push(
                (
                    "--experimental-exclude-allocations",
                    "allocation exclusion",
                    "--exclude-allocations",
                ),
            );
        }
        assert(Seq::new(flags@.len(), |i: int| (flags@[i].0@, flags@[i].1@, flags@[i].2@))
            =~= self.deprecated());
        flags
    }

    /// What the user is warned about where flags are set. `icon` stands at its start.
    pub fn warn_if_active(&self, icon: &str) -> (r: Option<String>)
        ensures
            if self.active().len() == 0 {
                r is None
            } else {
                r matches Some(text) && is_active_text(text@, icon@, self.active())
            },
    {
        let flags = self.active_flags();
        proof {
            assert(Seq::new(flags@.len(), |i: int| flags@[i]@).len() == self.active().len());
        }
        if flags.len() == 0 {
            return None;
        }
        let mut names: Vec<String> = Vec::new();
        let mut i: usize = 0;
        while i < flags.len()
            invariant
                i <= flags@.len(),
                names@.len() == i,
                forall|j: int|
                    0 <= j < i ==> crate::style::styled(
                        (#[trigger] names@[j])@,
                        flags@[j]@,
                        "\x1b[1m"@,
                    ),
            decreases flags.len() - i,
        {
            names.push(bold(flags[i]));
            i = i + 1;
        }
        let mark = yellow(icon);
        let link = underlined(ISSUES_URL);
        let mut text = "\n  ".to_owned();
        text.append(mark.as_str());
        text.append(" Experimental flags enabled: ");
        text.append(join(&names, ", ").as_str());
        text.append(
            "\n  These may change or be removed without notice.\n  Share feedback at ",
        );
        text.append(link.as_str());
        text.append(".\n");
        proof {
            let list = names.deep_view();
            let all = self.active();
            assert forall|j: int| 0 <= j < list.len() implies crate::style::styled(
                #[trigger] list[j],
                all[j],
                "\x1b[1m"@,
            ) by {
                assert(Seq::new(flags@.len(), |k: int| flags@[k]@)[j] == all[j]);
            }
            assert(are_bold(list, all));
            assert(crate::style::styled(mark@, icon@, "\x1b[33m"@));
            assert(crate::style::styled(link@, ISSUES_URL@, "\x1b[4m"@));
        }
        Some(text)
    }

    /// What the user is warned about where flags are set that have no effect any more. `icon` stands
    /// at the start of each line.
    pub fn warn_if_deprecated(&self, icon: &str) -> (r: Vec<String>)
        ensures
            r@.len() == self.deprecated().len(),
            forall|i: int|
                0 <= i < r@.len() ==> is_deprecated_text(
                    (#[trigger] r@[i])@,
                    icon@,
                    self.deprecated()[i],
                ),
    {
        let flags = self.deprecated_flags();
        let mut lines: Vec<String> = Vec::new();
        let mut i: usize = 0;
        let ghost all = self.deprecated();
        proof {
            assert(Seq::new(flags@.len(), |k: int| (flags@[k].0@, flags@[k].1@, flags@[k].2@)).len()
                == all.len());
        }
        while i < flags.len()
            invariant
                i <= flags@.len(),
                flags@.len() == all.len(),
                all == Seq::new(flags@.len(), |k: int| (flags@[k].0@, flags@[k].1@, flags@[k].2@)),
                lines@.len() == i,
                forall|j: int|
                    0 <= j < i ==> is_deprecated_text((#[trigger] lines@[j])@, icon@, all[j]),
            decreases flags.len() - i,
        {
            let mark = yellow(icon);
            let flag = bold(flags[i].0);
            let new_flag = bold(flags[i].2);
            let mut line = "  ".to_owned();
            line.append(mark.as_str());
            line.append(" ");
            line.append(flag.as_str());
            line.append(" has no effect: ");
            line.append(flags[i].1);
            line.append(" is now controlled by ");
            line.append(new_flag.as_str());
            line.append(".");
            proof {
                assert(all[i as int] == (flags@[i as int].0@, flags@[i as int].1@, flags@[i as int].2@));
                assert(crate::style::styled(mark@, icon@, "\x1b[33m"@));
                assert(crate::style::styled(flag@, all[i as int].0, "\x1b[1m"@));
                assert(crate::style::styled(new_flag@, all[i as int].2, "\x1b[1m"@));
                assert(is_deprecated_text(line@, icon@, all[i as int]));
            }
            lines.push(line);
            i = i + 1;
        }
        lines
    }
}

/// Where feedback is collected.
pub const ISSUES_URL: &'static str = "https://github.com/CodSpeedHQ/codspeed/issues";

/// Whether `list` holds the texts of `names`, each in bold or as it is.
pub open spec fn are_bold(list: Seq<Seq<char>>, names: Seq<Seq<char>>) -> bool {
    &&& list.len() == names.len()
    &&& forall|i: int|
        0 <= i < list.len() ==> crate::style::styled(#[trigger] list[i], names[i], "\x1b[1m"@)
}

/// Whether `r` is the warning about flags that are set.
pub open spec fn is_active_text(r: Seq<char>, icon: Seq<char>, flags: Seq<Seq<char>>) -> bool {
    exists|mark: Seq<char>, list: Seq<Seq<char>>, link: Seq<char>|
        #![trigger crate::style::styled(mark, icon, "\x1b[33m"@), are_bold(
            list,
            flags,
        ), crate::style::styled(link, ISSUES_URL@, "\x1b[4m"@)]
        crate::style::styled(mark, icon, "\x1b[33m"@) && are_bold(list, flags)
            && crate::style::styled(link, ISSUES_URL@, "\x1b[4m"@) && r == "\n  "@ + mark
            + " Experimental flags enabled: "@ + crate::text::joined(list, ", "@)
            + "\n  These may change or be removed without notice.\n  Share feedback at "@ + link
            + ".\n"@
}

/// Whether `r` is the warning about a flag that has no effect any more.
pub open spec fn is_deprecated_text(
    r: Seq<char>,
    icon: Seq<char>,
    entry: (Seq<char>, Seq<char>, Seq<char>),
) -> bool {
    exists|mark: Seq<char>, flag: Seq<char>, new_flag: Seq<char>|
        #![trigger crate::style::styled(mark, icon, "\x1b[33m"@), crate::style::styled(
            flag,
            entry.0,
            "\x1b[1m"@,
        ), crate::style::styled(new_flag, entry.2, "\x1b[1m"@)]
        crate::style::styled(mark, icon, "\x1b[33m"@) && crate::style::styled(
            flag,
            entry.0,
            "\x1b[1m"@,
        ) && crate::style::styled(new_flag, entry.2, "\x1b[1m"@) && r == "  "@ + mark + " "@ + flag
            + " has no effect: "@ + entry.1 + " is now controlled by "@ + new_flag + "."@
}

/// A flag is warned about exactly where it is set, and one that has no effect any more is told to be so
/// as well.
pub proof fn law_set_flags_are_warned_about(
    args: &ExperimentalArgs,
    icon: &str,
    warning: Option<String>,
    lines: Vec<String>,
)
    requires
        call_ensures(ExperimentalArgs::warn_if_active, (args, icon), warning),
        call_ensures(ExperimentalArgs::warn_if_deprecated, (args, icon), lines),
    ensures
        warning is Some <==> args.experimental_fair_sched || args.experimental_cycle_estimation
            || args.experimental_exclude_allocations,
        lines@.len() == (if args.experimental_cycle_estimation {
            1int
        } else {
            0
        }) + (if args.experimental_exclude_allocations {
            1int
        } else {
            0
        }),
{
}

/// The flags that are named are those that are set.
pub proof fn law_named_flags_are_set(args: ExperimentalArgs)
    ensures
        args.experimental_fair_sched <==> args.active().contains("--experimental-fair-sched"@),
        args.experimental_cycle_estimation <==> args.active().contains(
            "--experimental-cycle-estimation"@,
        ),
        args.experimental_exclude_allocations <==> args.active().contains(
            "--experimental-exclude-allocations"@,
        ),
        forall|i: int|
            0 <= i < args.deprecated().len() ==> args.active().contains(
                (#[trigger] args.deprecated()[i]).0,
            ),
{
    reveal_strlit("--experimental-fair-sched");
    reveal_strlit("--experimental-cycle-estimation");
    reveal_strlit("--experimental-exclude-allocations");
    let a = "--experimental-fair-sched"@;
    let b = "--experimental-cycle-estimation"@;
    let c = "--experimental-exclude-allocations"@;
    assert(a[15] == 'f' && b[15] == 'c' && c[15] == 'e');
    let all = args.active();
    let n: int = if args.experimental_fair_sched {
        1
    } else {
        0
    };
    let m: int = n + if args.experimental_cycle_estimation {
        1int
    } else {
        0
    };
    if args.experimental_fair_sched {
        assert(all[0] == a);
    }
    if args.experimental_cycle_estimation {
        assert(all[n] == b);
    }
    if args.experimental_exclude_allocations {
        assert(all[m] == c);
    }
    let old_flags = args.deprecated();
    assert forall|i: int| 0 <= i < old_flags.len() implies all.contains(
        (#[trigger] old_flags[i]).0,
    ) by {
        assert(old_flags[i].0 == b || old_flags[i].0 == c);
    }
}

} // verus!
