//! What the commands do to the machine: which of them write nothing, and which
//! write nothing but the modes of fans and the unlock.

use super::daemon::{
    beating_tick, carrying_out, looking, reading_sensors, starting, ticking, ticking_fan, Beat, Tick,
};
use super::keys::{cataloguing, cataloguing_json, Host};
use super::keyspace::{
    key_of, listing, listing_keys, list_head, reading, reading_value, Listing,
};
use super::probe::{enumerating, finding, WritableEntry, MAX_KEYS};
use super::run::{
    dry_ticking, reading_max_temp, sensing, DryRun, DrySettings,
};
use super::set::{setting, target_of, CliSetArgs, Mode};
use crate::config::schema::{FanBinding, SensorRef};
use crate::control::adapter::AppleSiliconDecision;
use crate::control::control_loop::FanControlState;
use crate::flt::{Flt, NEG_INFINITY_BITS};
use crate::smc::connection::{
    closing, opening, reading_attributes, reading_f32, reading_index, reading_info, reading_u32,
    writing_u8, Conn,
};
use crate::smc::enumerate::reading_key_count;
use crate::smc::exchange::{Action, Dialog};
use crate::smc::keys::{fan_fourcc, Target, KEY_COUNT, LOWER_C, UPPER_A};
use crate::smc::quiet::{
    law_closing_is_quiet, law_finding_fans_is_quiet, law_opening_is_quiet, law_quiet_is_tame,
    law_reading_is_quiet, lemma_quiet_index, lemma_quiet_info, lemma_quiet_join, lemma_quiet_none,
    lemma_quiet_step, stays_quiet,
};
use crate::smc::safety::{
    law_commit_is_tame, lemma_beating, lemma_tame_join, lemma_tame_none, lemma_verifying,
    lemma_writing_u8, stays_tame,
};
use crate::smc::write_session::{beating, committing, session_write, Session};
use vstd::prelude::*;
use vstd::utf8::encode_utf8;

verus! {

proof fn lemma_max_temp(c: Conn, sensors: Seq<SensorRef>, i: int, max: Flt, d: Dialog)
    ensures
        stays_quiet(d, reading_max_temp(c, sensors, i, max, d).2),
    decreases sensors.len() - i,
{
    lemma_quiet_none(d);
    if i < sensors.len() {
        let name = encode_utf8(sensors[i].key());
        if name.len() != 4 {
            lemma_max_temp(c, sensors, i + 1, max, d);
        } else {
            law_reading_is_quiet(c, key_of(name), d);
            let (r, c1, d1) = reading_f32(c, key_of(name), d);
            let more = match r {
                Ok(v) => if super::run::plausible(v) && max.less(v) {
                    v
                } else {
                    max
                },
                Err(_) => max,
            };
            lemma_max_temp(c1, sensors, i + 1, more, d1);
            lemma_quiet_join(d, d1, reading_max_temp(c1, sensors, i + 1, more, d1).2);
        }
    }
}

/// A tick of a dry run writes nothing to the SMC.
pub proof fn law_dry_ticks_write_nothing(
    fans: Seq<FanBinding>,
    i: int,
    set: DrySettings,
    s: DryRun,
)
    ensures
        stays_quiet(s.dialog, dry_ticking(fans, i, set, s).dialog),
    decreases fans.len() - i,
{
    lemma_quiet_none(s.dialog);
    if i < fans.len() {
        let (temp, c1, d1) = sensing(s.conn, fans[i].sensors@, s.dialog);
        if let Some(conn) = s.conn {
            lemma_max_temp(
                conn,
                fans[i].sensors@,
                0,
                Flt { bits: NEG_INFINITY_BITS },
                s.dialog,
            );
        }
        lemma_quiet_step(d1, Action::Clock);
        lemma_quiet_join(s.dialog, d1, d1.after(Action::Clock));
        let f = super::run::dry_fan(
            fans[i],
            temp,
            super::run::mode_at(s.modes, i),
            set.safe_min,
        );
        let (line, d2) = if set.json {
            (
                super::run::json_line(
                    set.session,
                    set.tick,
                    (d1.answer().value / 1_000_000) as u64,
                    f,
                ),
                d1.after(Action::Clock),
            )
        } else {
            (super::run::human_line(set.tick, f), d1)
        };
        let next = DryRun {
            conn: c1,
            modes: super::run::modes_after(s.modes, i, f),
            lines: s.lines.push(super::say::out(line)),
            dialog: d2,
        };
        law_dry_ticks_write_nothing(fans, i + 1, set, next);
        lemma_quiet_join(s.dialog, d2, dry_ticking(fans, i + 1, set, next).dialog);
    }
}

/// A dry run of `set` leaves the session as it was, and asks the machine for
/// nothing.
pub proof fn law_dry_set_changes_nothing(
    a: CliSetArgs,
    s: Session,
    safe_min: Option<Flt>,
    version: Seq<char>,
    d: Dialog,
)
    requires
        a.mode == Mode::DryRun,
    ensures
        setting(a, s, safe_min, version, d).1 == s,
        setting(a, s, safe_min, version, d).2 == d,
        !setting(a, s, safe_min, version, d).0.1,
{
}

/// `set` writes nothing but the mode of a fan and the unlock, and holds a fan
/// only after it was forced.
pub proof fn law_set_is_tame(
    a: CliSetArgs,
    s: Session,
    safe_min: Option<Flt>,
    version: Seq<char>,
    d: Dialog,
)
    ensures
        stays_tame(d, setting(a, s, safe_min, version, d).2),
        setting(a, s, safe_min, version, d).0.1 ==> {
            &&& a.mode == Mode::Commit
            &&& a.fan_index < s.fans.len()
            &&& committing(
                s,
                a.fan_index,
                target_of(a.raw_rpm, s.fans[a.fan_index as int], safe_min),
                d,
            ).0 is Ok
        },
{
    lemma_tame_none(d);
    if a.fan_index < s.fans.len() {
        law_commit_is_tame(
            s,
            a.fan_index,
            target_of(a.raw_rpm, s.fans[a.fan_index as int], safe_min),
            d,
        );
    }
}

proof fn lemma_looking(fan: FanBinding, min: Flt, s: Session, d: Dialog)
    ensures
        stays_quiet(d, looking(fan, min, s, d).2),
{
    let k = fan_fourcc(fan.index, UPPER_A, LOWER_C);
    law_reading_is_quiet(s.conn, k, d);
    let (_, c1, d1) = reading_f32(s.conn, k, d);
    lemma_max_temp(c1, fan.sensors@, 0, Flt { bits: NEG_INFINITY_BITS }, d1);
    lemma_quiet_join(d, d1, looking(fan, min, s, d).2);
}

/// Taking fans over writes nothing: the first write is that of the first tick.
pub proof fn law_taking_over_writes_nothing(
    fans: Seq<FanBinding>,
    i: int,
    states: Seq<FanControlState>,
    s: Session,
    d: Dialog,
)
    ensures
        stays_quiet(d, starting(fans, i, states, s, d).2),
    decreases fans.len() - i,
{
    lemma_quiet_none(d);
    if i < fans.len() {
        let e = crate::smc::write_session::first_with_index(s.fans, fans[i].index, 0)->0;
        lemma_looking(fans[i], e.min_rpm, s, d);
        let ((actual, temp), s1, d1) = looking(fans[i], e.min_rpm, s, d);
        let more = states.push(
            crate::control::control_loop::initial(
                fans[i].index,
                e.min_rpm,
                e.max_rpm,
                actual,
                temp,
            ),
        );
        law_taking_over_writes_nothing(fans, i + 1, more, s1, d1);
        lemma_quiet_join(d, d1, starting(fans, i + 1, more, s1, d1).2);
    }
}

proof fn lemma_sensors(c: Conn, sensors: Seq<SensorRef>, j: int, values: Seq<Flt>, d: Dialog)
    ensures
        stays_quiet(d, reading_sensors(c, sensors, j, values, d).2),
    decreases sensors.len() - j,
{
    lemma_quiet_none(d);
    if j < sensors.len() {
        let name = encode_utf8(sensors[j].key());
        let nan = Flt { bits: crate::flt::NAN_BITS };
        if name.len() != 4 {
            lemma_sensors(c, sensors, j + 1, values.push(nan), d);
        } else {
            law_reading_is_quiet(c, key_of(name), d);
            let (r, c1, d1) = reading_f32(c, key_of(name), d);
            let more = values.push(super::daemon::reading_or(r, nan));
            lemma_sensors(c1, sensors, j + 1, more, d1);
            lemma_quiet_join(d, d1, reading_sensors(c1, sensors, j + 1, more, d1).2);
        }
    }
}

pub proof fn lemma_carrying_out(
    mode: AppleSiliconDecision,
    fan_index: u8,
    minimum: u32,
    s: Session,
    d: Dialog,
)
    ensures
        stays_tame(d, carrying_out(mode, fan_index, minimum, s, d).2),
{
    lemma_tame_none(d);
    law_commit_is_tame(s, fan_index, minimum, d);
    let t = Target::FanMode(fan_index);
    lemma_verifying(s.conn, t, 0, "fan_mode_auto", s.id, d);
    let (w, s1, d1) = session_write(s, t, 0, "fan_mode_auto", d);
    lemma_beating(s1, d1);
    lemma_tame_join(d, d1, beating(s1, d1).1);
}

pub proof fn lemma_ticking_fan(fan: FanBinding, i: int, b: Beat, t: Tick)
    ensures
        stays_tame(t.dialog, ticking_fan(fan, i, b, t).dialog),
{
    let d = t.dialog;
    lemma_sensors(t.session.conn, fan.sensors@, 0, Seq::empty(), d);
    let (values, c1, d1) = reading_sensors(t.session.conn, fan.sensors@, 0, Seq::empty(), d);
    lemma_quiet_step(d1, Action::Timer);
    let d2 = d1.after(Action::Timer);
    lemma_quiet_join(d, d1, d2);
    law_quiet_is_tame(d, d2);
    let s1 = Session { conn: c1, ..t.session };
    let (state, target) = crate::control::control_loop::ticked(
        t.states[i],
        values,
        super::daemon::dropouts(values),
        super::daemon::fusion_of(fan),
        fan.curve@,
        super::daemon::settings_of(fan),
        super::daemon::time_step(b.start, d1.answer().value),
        b.start,
        b.safe_min,
    );
    if i < t.modes.len() {
        let mode = crate::control::adapter::decided(
            t.modes[i],
            target,
            state.min_rpm,
            state.max_rpm,
        );
        let rpm = crate::control::state::clamped_target(
            state.min_rpm,
            crate::control::state::floor_of(state.min_rpm, b.safe_min),
            state.max_rpm,
        ).to_whole();
        lemma_carrying_out(mode, fan.index, rpm, s1, d2);
        lemma_tame_join(d, d2, carrying_out(mode, fan.index, rpm, s1, d2).2);
    }
}

proof fn lemma_ticking(fans: Seq<FanBinding>, i: int, b: Beat, t: Tick)
    ensures
        stays_tame(t.dialog, ticking(fans, i, b, t).dialog),
    decreases fans.len() - i,
{
    lemma_tame_none(t.dialog);
    if i < fans.len() {
        if i >= t.states.len() {
            lemma_ticking(fans, i + 1, b, t);
        } else {
            let t1 = ticking_fan(fans[i], i, b, t);
            lemma_ticking_fan(fans[i], i, b, t);
            lemma_ticking(fans, i + 1, b, t1);
            lemma_tame_join(t.dialog, t1.dialog, ticking(fans, i + 1, b, t1).dialog);
        }
    }
}

/// A tick of the daemon writes nothing but the modes of fans and the unlock,
/// and only the values 0 and 1.
pub proof fn law_daemon_tick_is_tame(fans: Seq<FanBinding>, b: Beat, t: Tick)
    ensures
        stays_tame(t.dialog, beating_tick(fans, b, t).dialog),
{
    lemma_ticking(fans, 0, b, t);
    let after = ticking(fans, 0, b, t);
    lemma_beating(after.session, after.dialog);
    lemma_tame_join(t.dialog, after.dialog, beating(after.session, after.dialog).1);
}

/// The catalogue of fans, which tries the write path, writes nothing but the
/// modes of fans and the unlock, and only the values 0 and 1.
pub proof fn law_catalogue_is_tame(host: Host, d: Dialog)
    ensures
        stays_tame(d, cataloguing(host, d).1),
{
    law_opening_is_quiet(d);
    let (opened, d1) = opening(d);
    law_quiet_is_tame(d, d1);
    if let Ok(c1) = opened {
        lemma_writing_u8(c1, Target::Unlock, 0, d1);
        let (_, c2, d2) = writing_u8(c1, Target::Unlock, 0, d1);
        lemma_tame_join(d, d1, d2);
        law_finding_fans_is_quiet(c2, d2);
        let (fans, c3, d3) = crate::smc::enumerate::enumerating(c2, d2);
        law_quiet_is_tame(d2, d3);
        lemma_tame_join(d, d2, d3);
        law_closing_is_quiet(c3, d3);
        law_quiet_is_tame(d3, closing(c3, d3).1);
        lemma_tame_join(d, d3, closing(c3, d3).1);
        lemma_writing_u8(c3, Target::Unlock, 0, d3);
        let (_, c4, d4) = writing_u8(c3, Target::Unlock, 0, d3);
        lemma_tame_join(d, d3, d4);
        law_closing_is_quiet(c4, d4);
        law_quiet_is_tame(d4, closing(c4, d4).1);
        lemma_tame_join(d, d4, closing(c4, d4).1);
    }
}

/// The catalogue of fans for machines is read without writing anything.
pub proof fn law_json_catalogue_writes_nothing(host: Host, d: Dialog)
    ensures
        stays_quiet(d, cataloguing_json(host, d).1),
{
    law_opening_is_quiet(d);
    let (opened, d1) = opening(d);
    if let Ok(c1) = opened {
        law_finding_fans_is_quiet(c1, d1);
        let (_, c2, d2) = crate::smc::enumerate::enumerating(c1, d1);
        lemma_quiet_join(d, d1, d2);
        law_closing_is_quiet(c2, d2);
        lemma_quiet_join(d, d2, closing(c2, d2).1);
    }
}

proof fn lemma_listing_keys(c: Conn, i: int, n: int, l: Listing, d: Dialog)
    ensures
        stays_quiet(d, listing_keys(c, i, n, l, d).2),
    decreases n - i,
{
    lemma_quiet_none(d);
    if i < n {
        lemma_quiet_index(c, i as u32, d);
        let (key, d1) = reading_index(c, i as u32, d);
        match key {
            Err(_) => {
                let l1 = Listing { failed: l.failed + 1, ..l };
                lemma_listing_keys(c, i + 1, n, l1, d1);
                lemma_quiet_join(d, d1, listing_keys(c, i + 1, n, l1, d1).2);
            },
            Ok(fourcc) => {
                if !super::keyspace::of_a_fan(fourcc) {
                    lemma_listing_keys(c, i + 1, n, l, d1);
                    lemma_quiet_join(d, d1, listing_keys(c, i + 1, n, l, d1).2);
                } else {
                    lemma_quiet_info(c, fourcc, d1);
                    let (info, c2, d2) = reading_info(c, fourcc, d1);
                    lemma_quiet_join(d, d1, d2);
                    let row = match info {
                        Ok(ki) => super::keyspace::key_row(i as u32, fourcc, ki),
                        Err(_) => super::keyspace::blank_row(i as u32, fourcc),
                    };
                    let l1 = Listing { found: l.found + 1, lines: l.lines.push(row), ..l };
                    lemma_listing_keys(c2, i + 1, n, l1, d2);
                    lemma_quiet_join(d, d2, listing_keys(c2, i + 1, n, l1, d2).2);
                }
            },
        }
    }
}

/// The keys of fans are listed without writing anything.
pub proof fn law_listing_writes_nothing(d: Dialog)
    ensures
        stays_quiet(d, listing(d).1),
{
    law_opening_is_quiet(d);
    let (opened, d1) = opening(d);
    if let Ok(c1) = opened {
        law_reading_is_quiet(c1, KEY_COUNT, d1);
        let (count, c2, d2) = reading_key_count(c1, d1);
        lemma_quiet_join(d, d1, d2);
        law_closing_is_quiet(c2, d2);
        lemma_quiet_join(d, d2, closing(c2, d2).1);
        if let Ok(n) = count {
            let l = Listing { found: 0, failed: 0, lines: list_head(n) };
            lemma_listing_keys(c2, 0, n as int, l, d2);
            let (_, c3, d3) = listing_keys(c2, 0, n as int, l, d2);
            lemma_quiet_join(d, d2, d3);
            law_closing_is_quiet(c3, d3);
            lemma_quiet_join(d, d3, closing(c3, d3).1);
        }
    }
}

/// A key is shown without writing anything.
pub proof fn law_showing_a_key_writes_nothing(name: Seq<char>, d: Dialog)
    ensures
        stays_quiet(d, reading(name, d).1),
{
    lemma_quiet_none(d);
    law_opening_is_quiet(d);
    let fourcc = key_of(encode_utf8(name));
    let (opened, d1) = opening(d);
    if let Ok(c1) = opened {
        lemma_quiet_info(c1, fourcc, d1);
        let (info, c2, d2) = reading_info(c1, fourcc, d1);
        lemma_quiet_join(d, d1, d2);
        law_closing_is_quiet(c2, d2);
        lemma_quiet_join(d, d2, closing(c2, d2).1);
        if let Ok(ki) = info {
            law_reading_is_quiet(c2, fourcc, d2);
            let (_, c3, d3) = reading_value(c2, fourcc, ki, d2);
            lemma_quiet_join(d, d2, d3);
            law_closing_is_quiet(c3, d3);
            lemma_quiet_join(d, d3, closing(c3, d3).1);
        }
    }
}

proof fn lemma_finding(c: Conn, i: int, n: int, found: Seq<WritableEntry>, d: Dialog)
    ensures
        stays_quiet(d, finding(c, i, n, found, d).1),
    decreases n - i,
{
    lemma_quiet_none(d);
    if i < n {
        lemma_quiet_index(c, i as u32, d);
        let (key, d1) = reading_index(c, i as u32, d);
        match key {
            Err(_) => {
                lemma_finding(c, i + 1, n, found, d1);
                lemma_quiet_join(d, d1, finding(c, i + 1, n, found, d1).1);
            },
            Ok(fourcc) => {
                lemma_quiet_info(c, fourcc, d1);
                let (r, d2) = reading_attributes(c, fourcc, d1);
                lemma_quiet_join(d, d1, d2);
                let more = match r {
                    Ok((info, attrs)) => if super::probe::writable(attrs) {
                        found.push(WritableEntry { fourcc, info, attrs })
                    } else {
                        found
                    },
                    Err(_) => found,
                };
                lemma_finding(c, i + 1, n, more, d2);
                lemma_quiet_join(d, d2, finding(c, i + 1, n, more, d2).1);
            },
        }
    }
}

/// Keys that may be written are found without writing anything.
pub proof fn law_enumerating_writes_nothing(c: Conn, json: bool, d: Dialog)
    ensures
        stays_quiet(d, enumerating(c, json, d).2),
{
    law_reading_is_quiet(c, KEY_COUNT, d);
    let (count, c1, d1) = reading_u32(c, KEY_COUNT, d);
    if let Ok(n) = count {
        let total = if n < MAX_KEYS {
            n
        } else {
            MAX_KEYS
        };
        lemma_finding(c1, 0, total as int, Seq::empty(), d1);
        lemma_quiet_join(d, d1, finding(c1, 0, total as int, Seq::empty(), d1).1);
    }
}

} // verus!
