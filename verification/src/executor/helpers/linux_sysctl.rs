//! Settings of the kernel that profilers need.
use vstd::prelude::*;

use crate::numeral::{i64_to_decimal, parse_i64};
use crate::text::{after_char, trim};

verus! {

/// Why no value was found in what `sysctl` prints.
#[derive(Debug, Clone, Copy, PartialEq, Eq, Structural)]
pub enum SysctlError {
    /// There is no equals sign.
    NoValue,
    /// What follows is no number.
    NotANumber,
}

/// The value in what `sysctl` prints, which follows the first equals sign.
pub open spec fn sysctl_value(output: Seq<char>) -> Result<int, SysctlError> {
    match crate::text::after_first(output, '=') {
        None => Err(SysctlError::NoValue),
        Some(rest) => match crate::numeral::parsed(
            crate::text::trimmed(rest),
            i64::MIN as int,
            i64::MAX as int,
        ) {
            Some(value) => Ok(value),
            None => Err(SysctlError::NotANumber),
        },
    }
}

/// The value in what `sysctl` prints.
pub fn parse_sysctl_value(output: &str) -> (r: Result<i64, SysctlError>)
    ensures
        match r {
            Ok(value) => sysctl_value(output@) == Ok::<int, SysctlError>(value as int),
            Err(error) => sysctl_value(output@) == Err::<int, SysctlError>(error),
        },
{
    let Some(rest) = after_char(output, '=') else {
        return Err(SysctlError::NoValue);
    };
    match parse_i64(trim(rest.as_str()).as_str()) {
        Some(value) => Ok(value),
        None => Err(SysctlError::NotANumber),
    }
}

/// The arguments with which `sysctl` sets a value.
pub open spec fn write_args(name: Seq<char>, value: int) -> Seq<Seq<char>> {
    seq!["-w"@, name + seq!['='] + crate::numeral::signed_decimal(value)]
}

/// The arguments with which `sysctl` is run to change a setting from `current` to `target`, unless
/// it has that value.
pub fn ensure_sysctl(name: &str, current: i64, target: i64) -> (r: Option<Vec<String>>)
    ensures
        match r {
            Some(args) => current != target && args.deep_view() == write_args(name@, target as int),
            None => current == target,
        },
{
    if current == target {
        return None;
    }
    let mut assignment = name.to_owned();
    assignment.push('=');
    assignment.append(i64_to_decimal(target).as_str());
    assert(assignment@ =~= name@ + seq!['='] + crate::numeral::signed_decimal(target as int));
    let args = vec!["-w".to_owned(), assignment];
    assert(args.deep_view() =~= write_args(name@, target as int));
    Some(args)
}

/// The value that is noted of a setting when it is changed from `current` to `target`.
pub open spec fn noted(current: i64, target: i64) -> Option<i64> {
    if current == target {
        None
    } else {
        Some(current)
    }
}

/// A setting and the value that it had, if it was changed.
#[derive(Debug)]
pub struct LinuxSysctl {
    name: String,
    previous: Option<i64>,
}

impl LinuxSysctl {
    pub closed spec fn name_view(self) -> Seq<char> {
        self.name@
    }

    /// The value that the setting had, if it was changed.
    pub closed spec fn previous_value(self) -> Option<i64> {
        self.previous
    }

    /// Notes the value of a setting that is to have the value `target`, and gives the arguments
    /// with which `sysctl` is run for that, if it is not there yet.
    pub fn set(name: &str, current: i64, target: i64) -> (r: (Self, Option<Vec<String>>))
        ensures
            r.0.name_view() == name@,
            r.0.previous_value() == noted(current, target),
            match r.1 {
                Some(args) => current != target && args.deep_view() == write_args(
                    name@,
                    target as int,
                ),
                None => current == target,
            },
    {
        let args = ensure_sysctl(name, current, target);
        let previous = if current == target {
            None
        } else {
            Some(current)
        };
        (LinuxSysctl { name: name.to_owned(), previous }, args)
    }

    /// Whether the setting was changed.
    pub fn is_changed(&self) -> (r: bool)
        ensures
            r == (self.previous_value() is Some),
    {
        self.previous.is_some()
    }

    /// The setting and the value it is to have again, if it was changed.
    pub fn restore(&self) -> (r: Option<(&str, i64)>)
        ensures
            match r {
                Some((name, value)) => name@ == self.name_view() && self.previous_value() == Some(
                    value,
                ),
                None => self.previous_value() is None,
            },
    {
        match self.previous {
            Some(value) => Some((self.name.as_str(), value)),
            None => None,
        }
    }
}

/// The settings that profilers need, and their values.
pub open spec fn profiling_targets() -> Seq<(Seq<char>, i64)> {
    seq![("kernel.kptr_restrict"@, 0i64), ("kernel.perf_event_paranoid"@, -1i64)]
}

/// The settings that profilers need, and their values. There are none but on Linux.
pub fn profiling_sysctls(is_linux: bool) -> (r: Vec<(String, i64)>)
    ensures
        r.deep_view() == (if is_linux {
            profiling_targets()
        } else {
            seq![]
        }),
{
    let mut out: Vec<(String, i64)> = Vec::new();
    if is_linux {
        out.push(("kernel.kptr_restrict".to_owned(), 0));
        out.push(("kernel.perf_event_paranoid".to_owned(), -1));
    }
    assert(out.deep_view() =~= (if is_linux {
        profiling_targets()
    } else {
        seq![]
    }));
    out
}

/// The settings that are changed for a profiler, given what they are, with the arguments with which
/// `sysctl` is run for each.
pub open spec fn changed(targets: Seq<(Seq<char>, i64)>, current: Seq<i64>) -> Seq<
    (Seq<char>, i64, Seq<Seq<char>>),
>
    decreases targets.len(),
{
    if targets.len() == 0 {
        seq![]
    } else {
        let n = targets.len() - 1;
        let rest = changed(targets.drop_last(), current);
        if current[n] == targets[n].1 {
            rest
        } else {
            rest.push((targets[n].0, current[n], write_args(targets[n].0, targets[n].1 as int)))
        }
    }
}

/// The view of a changed setting.
pub open spec fn change_view(change: (LinuxSysctl, Vec<String>)) -> (Seq<char>, i64, Seq<Seq<char>>) {
    (change.0.name_view(), change.0.previous_value()->0, change.1.deep_view())
}

/// The settings that are to be changed for a profiler, given what they are, with the arguments with
/// which `sysctl` is run for each.
pub fn ensure_linux_profiling_sysctls(is_linux: bool, current: &Vec<i64>) -> (r: Vec<
    (LinuxSysctl, Vec<String>),
>)
    requires
        is_linux ==> current@.len() == profiling_targets().len(),
    ensures
        forall|i: int| 0 <= i < r@.len() ==> (#[trigger] r@[i]).0.previous_value() is Some,
        Seq::new(r@.len(), |i: int| change_view(r@[i])) == (if is_linux {
            changed(profiling_targets(), current@)
        } else {
            seq![]
        }),
{
    let targets = profiling_sysctls(is_linux);
    let ghost all = targets.deep_view();
    let mut out: Vec<(LinuxSysctl, Vec<String>)> = Vec::new();
    let mut i: usize = 0;
    assert(all.take(0) =~= seq![]);
    assert(Seq::new(out@.len(), |i: int| change_view(out@[i])) =~= changed(all.take(0), current@));
    while i < targets.len()
        invariant
            all == targets.deep_view(),
            all.len() <= current@.len(),
            i <= targets@.len(),
            forall|j: int| 0 <= j < out@.len() ==> (#[trigger] out@[j]).0.previous_value() is Some,
            Seq::new(out@.len(), |j: int| change_view(out@[j])) == changed(
                all.take(i as int),
                current@,
            ),
        decreases targets.len() - i,
    {
        let ghost before = out@;
        assert(all.take(i + 1).drop_last() =~= all.take(i as int));
        assert(all[i as int] == targets@[i as int].deep_view());
        let (sysctl, args) = LinuxSysctl::set(targets[i].0.as_str(), current[i], targets[i].1);
        if sysctl.is_changed() {
            if let Some(args) = args {
                out.push((sysctl, args));
                assert(Seq::new(out@.len(), |j: int| change_view(out@[j])) =~= Seq::new(
                    before.len(),
                    |j: int| change_view(before[j]),
                ).push(change_view(out@.last())));
            }
        }
        i = i + 1;
    }
    assert(all.take(all.len() as int) =~= all);
    assert(!is_linux ==> all =~= seq![]);
    out
}

/// The settings that are put back, with the values that they had, where only the first `made` of the
/// changes were made before a setting could not be read or written.
pub open spec fn undone(changes: Seq<(Seq<char>, i64, Seq<Seq<char>>)>, made: nat) -> Seq<
    (Seq<char>, i64),
> {
    Seq::new(
        if made < changes.len() {
            made
        } else {
            changes.len()
        },
        |i: int| (changes[i].0, changes[i].1),
    )
}

/// The settings that are to be put back, with the values that they had, where only the first `made`
/// of the changes were made before a setting could not be read or written.
pub fn undo_changes(changes: &Vec<(LinuxSysctl, Vec<String>)>, made: usize) -> (r: Vec<(String, i64)>)
    requires
        forall|i: int| 0 <= i < changes@.len() ==> (#[trigger] changes@[i]).0.previous_value() is Some,
    ensures
        r.deep_view() == undone(
            Seq::new(changes@.len(), |i: int| change_view(changes@[i])),
            made as nat,
        ),
{
    let ghost views = Seq::new(changes@.len(), |i: int| change_view(changes@[i]));
    let ghost all = undone(views, made as nat);
    let mut out: Vec<(String, i64)> = Vec::new();
    let mut i: usize = 0;
    assert(out.deep_view() =~= all.take(0));
    while i < made && i < changes.len()
        invariant
            forall|j: int|
                0 <= j < changes@.len() ==> (#[trigger] changes@[j]).0.previous_value() is Some,
            views == Seq::new(changes@.len(), |j: int| change_view(changes@[j])),
            all == undone(views, made as nat),
            i <= made,
            i <= changes@.len(),
            out.deep_view() == all.take(i as int),
        decreases changes.len() - i,
    {
        assert(views[i as int] == change_view(changes@[i as int]));
        if let Some((name, value)) = changes[i].0.restore() {
            let ghost before = out;
            out.push((name.to_owned(), value));
            proof {
                crate::list::lemma_deep_push(before, out@.last(), out);
                crate::list::lemma_take_push(all, i as int);
                assert(out.deep_view() =~= all.take(i + 1));
            }
        }
        i = i + 1;
    }
    assert(all.take(all.len() as int) =~= all);
    out
}

/// Every setting that was changed before a failure is put back to the value that it had, and no other
/// is touched. `current` holds what the settings were.
pub proof fn law_failure_undoes_what_was_changed(
    targets: Seq<(Seq<char>, i64)>,
    current: Seq<i64>,
    made: nat,
    i: int,
)
    requires
        targets.len() <= current.len(),
        0 <= i < undone(changed(targets, current), made).len(),
    ensures
        i < made,
        exists|k: int|
            0 <= k < targets.len() && undone(changed(targets, current), made)[i] == (
                (#[trigger] targets[k]).0,
                current[k],
            ) && current[k] != targets[k].1 && changed(targets, current)[i].2 == write_args(
                targets[k].0,
                targets[k].1 as int,
            ),
    decreases targets.len(),
{
    let all = changed(targets, current);
    let n = targets.len() - 1;
    let rest = changed(targets.drop_last(), current);
    if i < rest.len() {
        assert(all[i] == rest[i]);
        assert(undone(rest, made)[i] == (rest[i].0, rest[i].1));
        law_failure_undoes_what_was_changed(targets.drop_last(), current, made, i);
        let k = choose|k: int|
            0 <= k < n && undone(rest, made)[i] == (
                (#[trigger] targets.drop_last()[k]).0,
                current[k],
            ) && current[k] != targets.drop_last()[k].1 && rest[i].2 == write_args(
                targets.drop_last()[k].0,
                targets.drop_last()[k].1 as int,
            );
        assert(targets[k] == targets.drop_last()[k]);
    } else {
        assert(all[i] == (targets[n].0, current[n], write_args(targets[n].0, targets[n].1 as int)));
    }
}

/// The value that `sysctl` gives a setting when it is run with these arguments, if it gives one.
pub open spec fn assigned_value(args: Seq<Seq<char>>) -> Option<int> {
    match crate::text::after_first(args[1], '=') {
        Some(value) => crate::numeral::numeral_value(value, true),
        None => None,
    }
}

/// The value of a setting after it was changed from `current` to `target`, unless it had that value.
pub open spec fn value_after(name: Seq<char>, current: int, target: int) -> Option<int> {
    if current == target {
        Some(current)
    } else {
        assigned_value(write_args(name, target))
    }
}

proof fn lemma_assigned_value(name: Seq<char>, value: int)
    requires
        !name.contains('='),
    ensures
        assigned_value(write_args(name, value)) == Some(value),
{
    let decimal = crate::numeral::signed_decimal(value);
    let text = name + seq!['='] + decimal;
    crate::text::lemma_find_char(text, '=');
    let at = crate::text::find_char(text, '=') as int;
    assert(text[name.len() as int] == '=');
    if at < name.len() {
        assert(name[at] == text[at]);
    }
    assert(text.skip(name.len() as int + 1) =~= decimal);
    crate::numeral::law_signed_decimal_reads_back(value);
}

/// A setting that was changed has its value again once it is changed back to what was noted, and one
/// for which nothing was noted has it still.
pub proof fn law_setting_is_restored(name: Seq<char>, current: i64, target: i64)
    requires
        !name.contains('='),
    ensures
        value_after(name, current as int, target as int) == Some(target as int),
        match noted(current, target) {
            Some(previous) => value_after(name, target as int, previous as int) == Some(
                current as int,
            ),
            None => target == current,
        },
{
    lemma_assigned_value(name, target as int);
    lemma_assigned_value(name, current as int);
}

/// What is read of what `sysctl` prints is the number after the first equals sign, with or without
/// whitespace around it. Without an equals sign there is no value.
pub proof fn law_value_is_read(
    name: Seq<char>,
    rest: Seq<char>,
    value: i64,
    output: &str,
    r: Result<i64, SysctlError>,
)
    requires
        forall|i: int| 0 <= i < name.len() ==> #[trigger] name[i] != '=',
        call_ensures(parse_sysctl_value, (output,), r),
    ensures
        output@ == name + seq!['='] + rest && crate::text::trimmed(rest)
            == crate::numeral::signed_decimal(value as int) ==> r == Ok::<_, SysctlError>(value),
        output@ == name ==> r == Err::<i64, _>(SysctlError::NoValue),
{
    crate::text::law_text_after_a_character(name, '=', rest);
    crate::numeral::law_numbers_are_read_within_their_range(
        value as int,
        i64::MIN as int,
        i64::MAX as int,
    );
}

/// A setting is written only where it has another value, and what is written is the name and the value
/// that it is to have.
pub proof fn law_setting_is_written_where_it_differs(
    name: &str,
    current: i64,
    target: i64,
    r: Option<Vec<String>>,
)
    requires
        call_ensures(ensure_sysctl, (name, current, target), r),
    ensures
        r is Some <==> current != target,
        r matches Some(args) ==> args@.len() == 2 && args@[0]@ == "-w"@ && (name@ + seq![
            '=',
        ]).is_prefix_of(args@[1]@) && crate::numeral::numeral_value(
            args@[1]@.skip(name@.len() as int + 1),
            true,
        ) == Some(target as int),
{
    if let Some(args) = r {
        let all = args.deep_view();
        assert(all.len() == args@.len());
        assert(all[0] == args@[0]@ && all[1] == args@[1]@);
        crate::numeral::law_signed_decimal_reads_back(target as int);
        let number = crate::numeral::signed_decimal(target as int);
        assert(args@[1]@.skip(name@.len() as int + 1) =~= number);
        assert(args@[1]@.subrange(0, name@.len() as int + 1) =~= name@ + seq!['=']);
    }
}

/// Profilers need that addresses of the kernel are shown and that events may be counted, on Linux and
/// nowhere else.
pub proof fn law_profilers_need_two_settings(is_linux: bool, r: Vec<(String, i64)>)
    requires
        call_ensures(profiling_sysctls, (is_linux,), r),
    ensures
        !is_linux ==> r@.len() == 0,
        is_linux ==> r@.len() == 2 && r@[0].0@ == "kernel.kptr_restrict"@ && r@[0].1 == 0 && r@[1].0@
            == "kernel.perf_event_paranoid"@ && r@[1].1 == -1,
{
    let all = r.deep_view();
    assert(all.len() == r@.len());
    if is_linux {
        assert(all[0] == r@[0].deep_view() && all[1] == r@[1].deep_view());
    }
}

/// Each setting that does not have the value that profilers need is changed, and noted with the value
/// that it had; one that has it is left alone.
pub proof fn law_every_differing_setting_is_changed(
    targets: Seq<(Seq<char>, i64)>,
    current: Seq<i64>,
    k: int,
)
    requires
        targets.len() <= current.len(),
        0 <= k < targets.len(),
    ensures
        current[k] != targets[k].1 ==> exists|i: int|
            0 <= i < changed(targets, current).len() && (#[trigger] changed(targets, current)[i]).0
                == targets[k].0 && changed(targets, current)[i].1 == current[k],
        (forall|j: int| 0 <= j < targets.len() ==> current[j] == (#[trigger] targets[j]).1) ==> changed(
            targets,
            current,
        ).len() == 0,
    decreases targets.len(),
{
    let rest = targets.drop_last();
    let before = changed(rest, current);
    let after = changed(targets, current);
    let n = targets.len() - 1;
    if k < n {
        law_every_differing_setting_is_changed(rest, current, k);
        if current[k] != targets[k].1 {
            let i = choose|i: int|
                0 <= i < before.len() && (#[trigger] before[i]).0 == rest[k].0 && before[i].1
                    == current[k];
            assert(after[i] == before[i]);
        }
    } else if current[k] != targets[k].1 {
        assert(after[after.len() - 1].0 == targets[k].0);
    }
    if forall|j: int| 0 <= j < targets.len() ==> current[j] == (#[trigger] targets[j]).1 {
        assert(current[n] == targets[n].1);
        if n > 0 {
            assert forall|j: int| 0 <= j < rest.len() implies current[j] == (#[trigger] rest[j]).1 by {
                assert(rest[j] == targets[j]);
            }
            law_every_differing_setting_is_changed(rest, current, 0);
        }
    }
}

/// After a failure all changes that were made are undone: as many as were made, each of them.
pub proof fn law_all_changes_are_undone(
    changes: &Vec<(LinuxSysctl, Vec<String>)>,
    made: usize,
    r: Vec<(String, i64)>,
    i: int,
)
    requires
        call_ensures(undo_changes, (changes, made), r),
        made <= changes@.len(),
    ensures
        r@.len() == made,
        0 <= i < made ==> r@[i].0@ == changes@[i].0.name_view() && Some(r@[i].1)
            == (if changes@[i].0.previous_value() is Some {
            changes@[i].0.previous_value()
        } else {
            Some(r@[i].1)
        }),
{
    let all = r.deep_view();
    assert(all.len() == r@.len());
    if 0 <= i < made {
        assert(all[i] == r@[i].deep_view());
    }
}

} // verus!
