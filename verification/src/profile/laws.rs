//! What profiles, their names and what is said of them come to, said of them as
//! they are written.

use vstd::prelude::*;
use vstd::string::*;

use super::{ClearStep, DataEnv, Entry, Error, Holder, Process};
use crate::text;

verus! {

broadcast use vstd::string::group_string_axioms;

/// A profile's name is one to sixty-four ASCII letters, digits, hyphens and
/// underscores.
pub proof fn law_a_profile_name_by_its_codes(name: Seq<char>)
    ensures
        super::valid_name(name) <==> 1 <= name.len() <= 64 && forall|i: int|
            #![trigger name[i]]
            0 <= i < name.len() ==> 0x61 <= name[i] as int <= 0x7a || 0x41 <= name[i] as int <= 0x5a
                || 0x30 <= name[i] as int <= 0x39 || name[i] as int == 0x2d || name[i] as int
                == 0x5f,
{
    if super::valid_name(name) {
        assert forall|i: int| #![trigger name[i]] 0 <= i < name.len() implies 0x61 <= name[i] as int
            <= 0x7a || 0x41 <= name[i] as int <= 0x5a || 0x30 <= name[i] as int <= 0x39
            || name[i] as int == 0x2d || name[i] as int == 0x5f by {
            assert(super::is_name_char(name[i]));
        }
    }
}

/// A name in two parts is one exactly where each part is and they are not too
/// long together.
pub proof fn law_names_are_put_together(a: Seq<char>, b: Seq<char>)
    requires
        a.len() > 0,
        b.len() > 0,
    ensures
        super::valid_name(a + b) <==> super::valid_name(a) && super::valid_name(b) && a.len()
            + b.len() <= 64,
{
    let s = a + b;
    if super::valid_name(s) {
        assert forall|i: int| 0 <= i < a.len() implies super::is_name_char(#[trigger] a[i]) by {
            assert(s[i] == a[i]);
        }
        assert forall|i: int| 0 <= i < b.len() implies super::is_name_char(#[trigger] b[i]) by {
            assert(s[a.len() + i] == b[i]);
        }
    }
}

proof fn lemma_under(base: Seq<char>, name: Seq<char>)
    requires
        base.len() > 0,
        base.last() != '/',
    ensures
        text::joined(base, name) == base + "/"@ + name,
{
    reveal_strlit("/");
    assert(text::joined(base, name) =~= base + "/"@ + name);
}

/// Profiles are kept in the root that was given, under the data directory where
/// none was, under the one in the home directory where that is not set, and under
/// the temporary one where nothing is.
pub proof fn law_profiles_are_kept_under_the_data_home(env: DataEnv)
    ensures
        env.profile_root is Some ==> env.root() == env.profile_root->0@,
        env.xdg_data_home is Some ==> env.data_home() == env.xdg_data_home->0@,
        env.xdg_data_home is None && env.home is Some && env.home->0@.len() > 0
            && env.home->0@.last() != '/' ==> env.data_home() == env.home->0@ + "/.local/share"@,
        env.xdg_data_home is None && env.home is None ==> env.data_home() == env.temp_dir@,
        env.profile_root is None && env.data_home().len() > 0 && env.data_home().last() != '/'
            ==> env.root() == env.data_home() + "/cordial/profiles"@,
        env.data_home().len() > 0 && env.data_home().last() != '/' ==> env.legacy()
            == env.data_home() + "/cordial/instances/default"@,
{
    reveal_strlit("/");
    reveal_strlit(".local/share");
    reveal_strlit("/.local/share");
    reveal_strlit("cordial/profiles");
    reveal_strlit("/cordial/profiles");
    reveal_strlit("cordial/instances/default");
    reveal_strlit("/cordial/instances/default");
    if env.home is Some && env.home->0@.len() > 0 && env.home->0@.last() != '/' {
        let home = env.home->0@;
        lemma_under(home, ".local/share"@);
        assert(home + "/"@ + ".local/share"@ =~= home + "/.local/share"@);
    }
    let data = env.data_home();
    if data.len() > 0 && data.last() != '/' {
        lemma_under(data, "cordial/profiles"@);
        assert(data + "/"@ + "cordial/profiles"@ =~= data + "/cordial/profiles"@);
        lemma_under(data, "cordial/instances/default"@);
        assert(data + "/"@ + "cordial/instances/default"@ =~= data
            + "/cordial/instances/default"@);
    }
}

/// What is there of a list keeps its order, and what is not there leaves no gap.
pub proof fn law_what_is_there_keeps_its_order<T>(list: Seq<Option<T>>, value: T)
    ensures
        super::present(Seq::<Option<T>>::empty()) == Seq::<T>::empty(),
        super::present(list.push(Some(value))) == super::present(list).push(value),
        super::present(list.push(None)) == super::present(list),
{
    assert(list.push(Some(value)).drop_last() =~= list);
    assert(list.push(None).drop_last() =~= list);
}

/// A directory entry is a profile exactly where it is a directory of a name a
/// profile can have, and the profiles keep the order of the entries.
pub proof fn law_a_profile_is_a_directory_of_its_name(entries: Seq<Entry>, entry: Entry)
    ensures
        super::profiles_in(Seq::<Entry>::empty()) == Seq::<Seq<char>>::empty(),
        entry.is_dir && entry.name is Some && super::valid_name(entry.name->0@)
            ==> super::profiles_in(entries.push(entry)) == super::profiles_in(entries).push(
            entry.name->0@,
        ),
        !(entry.is_dir && entry.name is Some && super::valid_name(entry.name->0@))
            ==> super::profiles_in(entries.push(entry)) == super::profiles_in(entries),
{
    let find = |entry: Entry| super::profile_in(entry);
    assert(entries.push(entry).map_values(find).drop_last() =~= entries.map_values(find));
    assert(entries.push(entry).map_values(find).last() == super::profile_in(entry));
}

/// A time is told in seconds up to a minute and a half, in minutes up to an hour
/// and a half, and in hours from there, to the nearest, half of one counting as
/// one.
pub proof fn law_a_time_is_told_to_the_nearest(secs: u64, n: nat)
    ensures
        secs <= 90 ==> super::duration_text(secs) == text::decimal(secs as nat) + " seconds"@,
        90 < secs <= 5400 && 60 * n - 30 <= secs < 60 * n + 30 ==> super::duration_text(secs)
            == text::decimal(n) + " minutes"@,
        5400 < secs && 3600 * n - 1800 <= secs < 3600 * n + 1800 ==> super::duration_text(secs)
            == text::decimal(n) + " hours"@,
{
    if 60 * n - 30 <= secs < 60 * n + 30 {
        assert((secs + 30) / 60 == n as int);
    }
    if 3600 * n - 1800 <= secs < 3600 * n + 1800 {
        assert((secs + 1800) / 3600 == n as int);
    }
}

/// A process is a client exactly where its command names the client somewhere.
pub proof fn law_a_client_is_named_in_its_command(
    holder: Holder,
    before: Seq<char>,
    after: Seq<char>,
)
    ensures
        holder.command@ == before + "cordial-run"@ + after ==> holder.is_client(),
        holder.is_client() ==> text::holds_text(holder.command@, "cordial-run"@),
        super::not_a_client_text(holder) == "process "@ + text::decimal(holder.pid as nat)
            + " is not a Cordial client, so Cordial will not close it: "@ + holder.command@,
{
    text::law_a_part_is_found_where_it_stands(before, "cordial-run"@, after);
}

/// The processor time of a process is the twelfth and the thirteenth number after
/// the last closing bracket, added up, whatever brackets its name holds.
#[verifier::rlimit(40)]
pub proof fn law_processor_time_is_read_after_the_name(
    name: Seq<char>,
    rest: Seq<char>,
    user: nat,
    system: nat,
    ticks: nat,
)
    requires
        !rest.contains(')'),
        text::words(rest).len() > 12,
        user <= 0xffff_ffff_ffff_ffff,
        system <= 0xffff_ffff_ffff_ffff,
        text::words(rest)[11] == text::decimal(user),
        text::words(rest)[12] == text::decimal(system),
    ensures
        super::is_scheduled_for(name + ")"@ + rest, ticks) <==> ticks == user + system,
{
    reveal_strlit(")");
    let stat = name + ")"@ + rest;
    let close = name.len() as int;
    assert(stat[close] == ')');
    assert forall|j: int| close < j < stat.len() implies stat[j] != ')' by {
        assert(stat[j] == rest[j - close - 1]);
        assert(rest.contains(rest[j - close - 1]));
    }
    assert(super::is_last(stat, ')', close));
    assert(stat.skip(close + 1) =~= rest);
    text::law_a_number_reads_back(user, u64::MAX as nat);
    text::law_a_number_reads_back(system, u64::MAX as nat);
    if super::is_scheduled_for(stat, ticks) {
        let at = choose|at: int| #[trigger]
            super::is_last(stat, ')', at) && ({
                let fields = text::words(stat.skip(at + 1));
                &&& fields.len() > 12
                &&& text::unsigned_value(fields[11], u64::MAX as nat) is Some
                &&& text::unsigned_value(fields[12], u64::MAX as nat) is Some
                &&& ticks == text::unsigned_value(fields[11], u64::MAX as nat)->0
                    + text::unsigned_value(fields[12], u64::MAX as nat)->0
            });
        assert(at == close) by {
            if at < close {
                assert(stat[close] != ')');
            }
            if close < at {
                assert(stat[at] != ')');
            }
        }
    }
}

/// A line without a closing bracket, or with too few numbers after the last one,
/// tells no processor time.
pub proof fn law_a_short_line_tells_no_time(name: Seq<char>, rest: Seq<char>, ticks: nat)
    requires
        !rest.contains(')'),
    ensures
        !super::is_scheduled_for(rest, ticks),
        text::words(rest).len() <= 12 ==> !super::is_scheduled_for(name + ")"@ + rest, ticks),
{
    reveal_strlit(")");
    assert forall|at: int| !super::is_last(rest, ')', at) by {
        if super::is_last(rest, ')', at) {
            assert(rest.contains(rest[at]));
        }
    }
    let stat = name + ")"@ + rest;
    let close = name.len() as int;
    assert forall|j: int| close < j < stat.len() implies stat[j] != ')' by {
        assert(stat[j] == rest[j - close - 1]);
        assert(rest.contains(rest[j - close - 1]));
    }
    assert(stat.skip(close + 1) =~= rest);
    assert forall|at: int| super::is_last(stat, ')', at) implies at == close by {
        if at < close {
            assert(stat[close] != ')');
        }
    }
}

/// A command line is shown with a space for each byte that ends an argument, and
/// with everything else as it is.
pub proof fn law_arguments_are_shown_with_spaces(s: Seq<char>, i: int)
    requires
        0 <= i < s.len(),
    ensures
        super::spaced(s).len() == s.len(),
        s[i] as int == 0 ==> super::spaced(s)[i] as int == 0x20,
        s[i] as int != 0 ==> super::spaced(s)[i] == s[i],
{
}

/// A process has a file open exactly where one of its links leads to it.
pub proof fn law_an_open_file_is_one_that_a_link_leads_to(
    process: Process,
    target: Seq<char>,
    i: int,
)
    ensures
        0 <= i < process.links@.len() && process.links@[i] is Some && process.links@[i]->0@
            == target ==> super::has_open(process, target),
        (forall|k: int|
            0 <= k < process.links@.len() && #[trigger] process.links@[k] is Some
                ==> process.links@[k]->0@ != target) ==> !super::has_open(process, target),
{
}

/// What is said of a profile that is in use names the profile, and the process
/// and how long it has been up where they are known.
#[verifier::rlimit(40)]
pub proof fn law_a_refusal_names_the_profile_and_its_holder(
    name: String,
    holder: Holder,
    secs: u64,
    shown: Seq<char>,
    message: String,
)
    ensures
        super::error_text_as(Error::Busy(name, None), shown) == "profile "@ + shown
            + " is already open in another Cordial client; use a different profile, or close that one first"@,
        holder.running_for is None ==> super::error_text_as(Error::Busy(name, Some(holder)), shown)
            == "profile "@ + shown + " is already open in another Cordial client (process "@
            + text::decimal(holder.pid as nat)
            + "); use a different profile, or close that one first"@,
        holder.running_for == Some(secs) ==> super::error_text_as(
            Error::Busy(name, Some(holder)),
            shown,
        ) == "profile "@ + shown + " is already open in another Cordial client (process "@
            + text::decimal(holder.pid as nat) + ", running for "@ + super::duration_text(secs)
            + "); use a different profile, or close that one first"@,
        super::error_text_as(Error::Unusable(message), shown) == message@,
        super::error_text(Error::Busy(name, Some(holder))) == super::error_text_as(
            Error::Busy(name, Some(holder)),
            text::debug_form(name@),
        ),
        super::unusable_name_text(shown) == shown
            + " is not a usable profile name; use letters, digits, - and _"@,
        super::not_a_version_text(shown) == shown + " is not a Roblox version"@,
{
    reveal_strlit(" is already open in another Cordial client");
    reveal_strlit("; use a different profile, or close that one first");
    reveal_strlit(
        " is already open in another Cordial client; use a different profile, or close that one first",
    );
    reveal_strlit(" (process ");
    reveal_strlit(" is already open in another Cordial client (process ");
    reveal_strlit(")");
    reveal_strlit("); use a different profile, or close that one first");
    reveal_strlit("profile ");
    assert(super::error_text_as(Error::Busy(name, None), shown) =~= "profile "@ + shown
        + " is already open in another Cordial client; use a different profile, or close that one first"@);
    if holder.running_for is None {
        assert(super::error_text_as(Error::Busy(name, Some(holder)), shown) =~= "profile "@ + shown
            + " is already open in another Cordial client (process "@ + text::decimal(
            holder.pid as nat,
        ) + "); use a different profile, or close that one first"@);
    }
    if holder.running_for == Some(secs) {
        assert(super::error_text_as(Error::Busy(name, Some(holder)), shown) =~= "profile "@ + shown
            + " is already open in another Cordial client (process "@ + text::decimal(
            holder.pid as nat,
        ) + ", running for "@ + super::duration_text(secs)
            + "); use a different profile, or close that one first"@);
    }
}

/// A descriptor that was handed on is read as it was written, with white space
/// around it or none; it is at most the largest a descriptor can be.
#[verifier::rlimit(40)]
pub proof fn law_a_descriptor_reads_back(before: Seq<char>, n: nat, after: Seq<char>)
    requires
        forall|i: int| 0 <= i < before.len() ==> text::is_white(#[trigger] before[i]),
        forall|i: int| 0 <= i < after.len() ==> text::is_white(#[trigger] after[i]),
    ensures
        super::descriptor_in(before + text::decimal(n) + after) == if n <= 0x7fff_ffff {
            Some(n)
        } else {
            None::<nat>
        },
        n > 0 ==> super::descriptor_in(before + seq!['-'] + text::decimal(n) + after) is None,
        super::descriptor_in(before) is None,
{
    lemma_decimal_is_digits(n);
    let s = text::decimal(n);
    text::law_trimming_takes_what_is_around(before, s, after);
    text::law_a_number_reads_back(n, i32::MAX as nat);
    assert(s[0] != '-');
    let minus = seq!['-'] + s;
    assert(minus.last() == s.last());
    assert(before + seq!['-'] + s + after =~= before + minus + after);
    text::law_trimming_takes_what_is_around(before, minus, after);
    assert(minus.skip(1) =~= s);
    text::law_a_number_reads_back(n, n);
    assert(text::digits_value(s) == Some(n));
    let none = Seq::<char>::empty();
    text::law_trimming_takes_what_is_around(before, none, none);
    assert(before + none + none =~= before);
}

/// A descriptor is any number as numbers are read, and a minus stands only before
/// nothing but zeros.
pub proof fn law_a_descriptor_is_read_as_a_number(
    before: Seq<char>,
    s: Seq<char>,
    after: Seq<char>,
)
    requires
        forall|i: int| 0 <= i < before.len() ==> text::is_white(#[trigger] before[i]),
        forall|i: int| 0 <= i < after.len() ==> text::is_white(#[trigger] after[i]),
        s.len() > 0,
        !text::is_white(s[0]),
        !text::is_white(s.last()),
    ensures
        s[0] != '-' ==> super::descriptor_in(before + s + after) == text::unsigned_value(
            s,
            0x7fff_ffff,
        ),
        super::descriptor_in(before + seq!['-'] + s + after) == (if text::digits_value(s) == Some(
            0nat,
        ) {
            Some(0nat)
        } else {
            None
        }),
{
    text::law_trimming_takes_what_is_around(before, s, after);
    let minus = seq!['-'] + s;
    assert(minus.last() == s.last());
    assert(before + seq!['-'] + s + after =~= before + minus + after);
    text::law_trimming_takes_what_is_around(before, minus, after);
    assert(minus.skip(1) =~= s);
}

proof fn lemma_decimal_is_digits(n: nat)
    ensures
        text::decimal(n).len() > 0,
        forall|i: int|
            0 <= i < text::decimal(n).len() ==> 0x30 <= (#[trigger] text::decimal(n)[i]) as int
                <= 0x39,
        !text::is_white(text::decimal(n)[0]),
        !text::is_white(text::decimal(n).last()),
        text::digits_value(text::decimal(n)) == Some(n),
    decreases n,
{
    text::law_a_number_reads_back(n, n);
    let s = text::decimal(n);
    assert(s.len() > 0);
    if n >= 10 {
        lemma_decimal_is_digits(n / 10);
    }
    assert forall|i: int| 0 <= i < s.len() implies 0x30 <= (#[trigger] s[i]) as int <= 0x39 by {
        if n >= 10 && i < s.len() - 1 {
            assert(s[i] == text::decimal(n / 10)[i]);
        }
    }
    assert(s[0] != '+');
}

/// The size of a profile is that of its files, added up.
pub proof fn law_sizes_are_added_up(lengths: Seq<u64>, length: u64)
    ensures
        super::total(Seq::<u64>::empty()) == 0,
        super::total(lengths.push(length)) == super::total(lengths) + length,
{
    assert(lengths.push(length).drop_last() =~= lengths);
}

/// A size is told in the largest unit that it reaches.
pub proof fn law_a_size_is_told_in_the_largest_unit_it_reaches(bytes: u64)
    ensures
        bytes < 1000 ==> super::unit_of(bytes) is None,
        1000 <= bytes < 1000 * 1000 ==> super::unit_of(bytes) == Some((1000u64, "kB"@)),
        1000 * 1000 <= bytes < 1000 * 1000 * 1000 ==> super::unit_of(bytes) == Some(
            (1000000u64, "MB"@),
        ),
        1000 * 1000 * 1000 <= bytes ==> super::unit_of(bytes) == Some((1000000000u64, "GB"@)),
{
}

/// Clearing a profile moves its data aside under another name and removes it
/// there, after anything an earlier clearing left under that name.
pub proof fn law_clearing_goes_by_another_name(steps: Seq<ClearStep>, profile_dir: Seq<char>)
    requires
        profile_dir.len() > 0,
        profile_dir.last() != '/',
        super::clears(steps, profile_dir),
    ensures
        steps.len() == 3,
        steps[0] matches ClearStep::DropLeftover { path } && path@ == profile_dir
            + "/data.clearing"@,
        steps[1] matches ClearStep::Rename { from, to } && from@ == profile_dir + "/data"@ && to@
            == profile_dir + "/data.clearing"@,
        steps[2] matches ClearStep::Drop { path } && path@ == profile_dir + "/data.clearing"@,
{
    reveal_strlit("/");
    reveal_strlit("data");
    reveal_strlit("/data");
    reveal_strlit("data.clearing");
    reveal_strlit("/data.clearing");
    lemma_under(profile_dir, "data"@);
    lemma_under(profile_dir, "data.clearing"@);
    assert(profile_dir + "/"@ + "data"@ =~= profile_dir + "/data"@);
    assert(profile_dir + "/"@ + "data.clearing"@ =~= profile_dir + "/data.clearing"@);
}

/// The pins of profiles are what was read of them, each at its place.
pub proof fn law_pins_keep_their_places(pins: Seq<Option<String>>, i: int)
    requires
        0 <= i < pins.len(),
    ensures
        super::pins_view(pins).len() == pins.len(),
        pins[i] is Some ==> super::pins_view(pins)[i] == Some(pins[i]->0@),
        pins[i] is None ==> super::pins_view(pins)[i] is None,
{
}

/// The names and numbers that other programs go by.
pub proof fn law_what_other_programs_go_by()
    ensures
        super::SIGTERM == 15,
        super::SIGKILL == 9,
        super::ESRCH == 3,
        super::HANDED_LOCK@ == "CORDIAL_PROFILE_LOCK_FD"@,
        super::PIN@ == "roblox-version"@,
        super::LOCK@ == ".lock"@,
        super::CLIENT@ == "cordial-run"@,
        super::MAX_NAME == 64,
{
}

} // verus!
