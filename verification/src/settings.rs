use vstd::prelude::*;
use vstd::string::StringExecFns;
use vstd::string::StrSliceExecFns;
use crate::text::{
    decimal, ends_with, ends_with_str, is_ascii_digit, is_white_space, parse_u8, parse_u8_from,
    push_decimal, starts_with, starts_with_str, trim, trim_chars,
};

verus! {

/// The user's choices, as they are stored between runs.
#[derive(Debug, Clone, Copy, PartialEq, Eq, Structural)]
pub struct Settings {
    pub notifications_enabled: bool,
    pub use_number_icon: bool,
    pub sidetone_enabled: bool,
    pub microphone_light_enabled: bool,
    pub inactive_time_minutes: u8,
}

/// The registry key, under the current user's hive, that holds the settings.
pub const REGISTRY_KEY_PATH: &'static str = "Software\\HeadsetBatteryIndicator";

/// Names of the registry values (and of the ini keys) for each setting.
pub const NOTIFICATIONS_ENABLED_NAME: &'static str = "NotificationsEnabled";
pub const USE_NUMBER_ICON_NAME: &'static str = "UseNumberIcon";
pub const SIDETONE_ENABLED_NAME: &'static str = "SidetoneEnabled";
pub const MICROPHONE_LIGHT_ENABLED_NAME: &'static str = "MicrophoneLightEnabled";
pub const INACTIVE_TIME_MINUTES_NAME: &'static str = "InactiveTimeMinutes";

/// The name of the settings file that the portable build keeps next to the program.
pub const SETTINGS_FILE_NAME: &'static str = "settings.ini";

/// The five registry values as they are written: `1` or `0` for each switch,
/// and the number of minutes.
#[derive(Debug, Clone, Copy, PartialEq, Eq, Structural)]
pub struct RegistryValues {
    pub notifications_enabled: u32,
    pub use_number_icon: u32,
    pub sidetone_enabled: u32,
    pub microphone_light_enabled: u32,
    pub inactive_time_minutes: u32,
}

/// The five registry values as they are read; `None` where a value could not be read.
#[derive(Debug, Clone, Copy, PartialEq, Eq, Structural)]
pub struct RegistryReading {
    pub notifications_enabled: Option<u32>,
    pub use_number_icon: Option<u32>,
    pub sidetone_enabled: Option<u32>,
    pub microphone_light_enabled: Option<u32>,
    pub inactive_time_minutes: Option<u32>,
}

/// A value that could not be read counts as zero.
pub open spec fn read_or_zero(v: Option<u32>) -> u32 {
    match v {
        Some(x) => x,
        None => 0,
    }
}

/// `1` for a switch that is on, `0` for one that is off.
pub open spec fn switch_value(b: bool) -> u32 {
    if b { 1 } else { 0 }
}

/// The settings that a registry reading stands for: a switch is on when its
/// value is not zero, and the minutes are capped at 255.
pub open spec fn registry_settings(r: RegistryReading) -> Settings {
    Settings {
        notifications_enabled: read_or_zero(r.notifications_enabled) != 0,
        use_number_icon: read_or_zero(r.use_number_icon) != 0,
        sidetone_enabled: read_or_zero(r.sidetone_enabled) != 0,
        microphone_light_enabled: read_or_zero(r.microphone_light_enabled) != 0,
        inactive_time_minutes: if read_or_zero(r.inactive_time_minutes) > 255 {
            255
        } else {
            read_or_zero(r.inactive_time_minutes) as u8
        },
    }
}

/// The registry values that store `s`.
pub open spec fn registry_values(s: Settings) -> RegistryValues {
    RegistryValues {
        notifications_enabled: switch_value(s.notifications_enabled),
        use_number_icon: switch_value(s.use_number_icon),
        sidetone_enabled: switch_value(s.sidetone_enabled),
        microphone_light_enabled: switch_value(s.microphone_light_enabled),
        inactive_time_minutes: s.inactive_time_minutes as u32,
    }
}

/// Reading back values that were all written.
pub open spec fn reading_of(v: RegistryValues) -> RegistryReading {
    RegistryReading {
        notifications_enabled: Some(v.notifications_enabled),
        use_number_icon: Some(v.use_number_icon),
        sidetone_enabled: Some(v.sidetone_enabled),
        microphone_light_enabled: Some(v.microphone_light_enabled),
        inactive_time_minutes: Some(v.inactive_time_minutes),
    }
}

fn value_or_zero(v: Option<u32>) -> (res: u32)
    ensures
        res == read_or_zero(v),
{
    match v {
        Some(x) => x,
        None => 0,
    }
}

fn as_switch_value(b: bool) -> (res: u32)
    ensures
        res == switch_value(b),
{
    if b { 1 } else { 0 }
}

impl Settings {
    /// Everything off and no inactivity timeout: what a fresh install starts with.
    pub open spec fn spec_initial() -> Settings {
        Settings {
            notifications_enabled: false,
            use_number_icon: false,
            sidetone_enabled: false,
            microphone_light_enabled: false,
            inactive_time_minutes: 0,
        }
    }

    /// The settings of a fresh install.
    pub fn initial() -> (res: Settings)
        ensures
            res == Settings::spec_initial(),
    {
        Settings {
            notifications_enabled: false,
            use_number_icon: false,
            sidetone_enabled: false,
            microphone_light_enabled: false,
            inactive_time_minutes: 0,
        }
    }

    /// The settings that the registry values stand for.
    pub fn from_registry(reading: RegistryReading) -> (res: Settings)
        ensures
            res == registry_settings(reading),
    {
        let minutes = value_or_zero(reading.inactive_time_minutes);
        Settings {
            notifications_enabled: value_or_zero(reading.notifications_enabled) != 0,
            use_number_icon: value_or_zero(reading.use_number_icon) != 0,
            sidetone_enabled: value_or_zero(reading.sidetone_enabled) != 0,
            microphone_light_enabled: value_or_zero(reading.microphone_light_enabled) != 0,
            inactive_time_minutes: if minutes > 255 {
                255
            } else {
                minutes as u8
            },
        }
    }

    /// The registry values that store these settings.
    pub fn to_registry(&self) -> (res: RegistryValues)
        ensures
            res == registry_values(*self),
    {
        RegistryValues {
            notifications_enabled: as_switch_value(self.notifications_enabled),
            use_number_icon: as_switch_value(self.use_number_icon),
            sidetone_enabled: as_switch_value(self.sidetone_enabled),
            microphone_light_enabled: as_switch_value(self.microphone_light_enabled),
            inactive_time_minutes: self.inactive_time_minutes as u32,
        }
    }
}

/// Settings written to the registry read back as the same settings.
pub proof fn lemma_registry_round_trip(s: Settings)
    ensures
        registry_settings(reading_of(registry_values(s))) == s,
{
}


/// The `\n`-separated pieces of `s`, the last piece included even when it is
/// empty. Once each piece is trimmed, as the ini reader does, these pieces act
/// exactly as the lines that `str::lines` yields: a `\r` before the `\n` is
/// white space, and an empty last piece matches no key.
pub open spec fn split_lines(s: Seq<char>) -> Seq<Seq<char>>
    decreases s.len(),
{
    if s.len() == 0 {
        seq![Seq::<char>::empty()]
    } else if s.last() == '\n' {
        split_lines(s.drop_last()).push(Seq::<char>::empty())
    } else {
        let ls = split_lines(s.drop_last());
        ls.update(ls.len() - 1, ls.last().push(s.last()))
    }
}

/// A switch in the ini file is on when its line ends in `true` or in `1`.
pub open spec fn ini_switch(line: Seq<char>) -> bool {
    ends_with(line, "true"@) || ends_with(line, "1"@)
}

/// What one line of the ini file does to the settings read so far.
pub open spec fn apply_ini_line(s: Settings, raw: Seq<char>) -> Settings {
    let line = trim(raw);
    if starts_with(line, "NotificationsEnabled="@) {
        Settings { notifications_enabled: ini_switch(line), ..s }
    } else if starts_with(line, "UseNumberIcon="@) {
        Settings { use_number_icon: ini_switch(line), ..s }
    } else if starts_with(line, "SidetoneEnabled="@) {
        Settings { sidetone_enabled: ini_switch(line), ..s }
    } else if starts_with(line, "MicrophoneLightEnabled="@) {
        Settings { microphone_light_enabled: ini_switch(line), ..s }
    } else if starts_with(line, "InactiveTimeMinutes="@) {
        Settings {
            inactive_time_minutes: match parse_u8(line.skip("InactiveTimeMinutes="@.len() as int)) {
                Some(v) => v,
                None => 0,
            },
            ..s
        }
    } else {
        s
    }
}

/// The lines applied one after another, first to last.
pub open spec fn apply_ini_lines(s: Settings, lines: Seq<Seq<char>>) -> Settings
    decreases lines.len(),
{
    if lines.len() == 0 {
        s
    } else {
        apply_ini_line(apply_ini_lines(s, lines.drop_last()), lines.last())
    }
}

/// The settings that the contents of an ini file stand for: the settings of a
/// fresh install, changed by each line in turn.
pub open spec fn ini_settings(contents: Seq<char>) -> Settings {
    apply_ini_lines(Settings::spec_initial(), split_lines(contents))
}

/// How a switch is written in the ini file.
pub open spec fn switch_text(b: bool) -> Seq<char> {
    if b { "true"@ } else { "false"@ }
}

/// The lines of the ini file that stores `s`, without their line feeds.
pub open spec fn ini_lines(s: Settings) -> Seq<Seq<char>> {
    seq![
        "NotificationsEnabled="@ + switch_text(s.notifications_enabled),
        "UseNumberIcon="@ + switch_text(s.use_number_icon),
        "SidetoneEnabled="@ + switch_text(s.sidetone_enabled),
        "MicrophoneLightEnabled="@ + switch_text(s.microphone_light_enabled),
        "InactiveTimeMinutes="@ + decimal(s.inactive_time_minutes as nat),
    ]
}

/// The lines joined, each followed by a line feed.
pub open spec fn terminated_lines(lines: Seq<Seq<char>>) -> Seq<char>
    decreases lines.len(),
{
    if lines.len() == 0 {
        Seq::<char>::empty()
    } else {
        terminated_lines(lines.drop_last()) + lines.last() + seq!['\n']
    }
}

/// The text of the ini file that stores `s`.
pub open spec fn ini_text(s: Settings) -> Seq<char> {
    terminated_lines(ini_lines(s))
}

fn apply_ini_line_exec(s: Settings, raw: &Vec<char>) -> (res: Settings)
    ensures
        res == apply_ini_line(s, raw@),
{
    let line = trim_chars(raw);
    if starts_with_str(&line, "NotificationsEnabled=") {
        Settings {
            notifications_enabled: ends_with_str(&line, "true") || ends_with_str(&line, "1"),
            ..s
        }
    } else if starts_with_str(&line, "UseNumberIcon=") {
        Settings { use_number_icon: ends_with_str(&line, "true") || ends_with_str(&line, "1"), ..s }
    } else if starts_with_str(&line, "SidetoneEnabled=") {
        Settings {
            sidetone_enabled: ends_with_str(&line, "true") || ends_with_str(&line, "1"),
            ..s
        }
    } else if starts_with_str(&line, "MicrophoneLightEnabled=") {
        Settings {
            microphone_light_enabled: ends_with_str(&line, "true") || ends_with_str(&line, "1"),
            ..s
        }
    } else if starts_with_str(&line, "InactiveTimeMinutes=") {
        let prefix_len = "InactiveTimeMinutes=".unicode_len();
        let minutes = match parse_u8_from(&line, prefix_len) {
            Some(v) => v,
            None => 0,
        };
        Settings { inactive_time_minutes: minutes, ..s }
    } else {
        s
    }
}

proof fn lemma_split_lines_nonempty(s: Seq<char>)
    ensures
        split_lines(s).len() >= 1,
    decreases s.len(),
{
    if s.len() > 0 {
        lemma_split_lines_nonempty(s.drop_last());
    }
}

fn chars_of(text: &str) -> (res: Vec<char>)
    ensures
        res@ == text@,
{
    let mut res: Vec<char> = Vec::new();
    for c in it: text.chars()
        invariant
            res@ == it.seq().take(it.index() as int),
    {
        res.push(c);
    }
    res
}

impl Settings {
    /// Reads settings from the contents of an ini file: each line is trimmed,
    /// a line that starts with a known key and `=` sets that setting (a
    /// switch is on when the line ends in `true` or `1`; the minutes are the
    /// number after `=`, or 0 when that is no number from 0 to 255), and every
    /// other line is ignored. A later line wins over an earlier one.
    pub fn from_ini(contents: &str) -> (res: Settings)
        ensures
            res == ini_settings(contents@),
    {
        let chars = chars_of(contents);
        let len = chars.len();
        let mut settings = Settings::initial();
        let mut line: Vec<char> = Vec::new();
        let mut i: usize = 0;
        assert(chars@.take(0) =~= Seq::<char>::empty());
        while i < len
            invariant
                i <= len == chars@.len(),
                chars@ == contents@,
                split_lines(chars@.take(i as int)).len() >= 1,
                settings == apply_ini_lines(
                    Settings::spec_initial(),
                    split_lines(chars@.take(i as int)).drop_last(),
                ),
                line@ == split_lines(chars@.take(i as int)).last(),
            decreases len - i,
        {
            let ghost before = split_lines(chars@.take(i as int));
            let c = chars[i];
            assert(chars@.take(i + 1).drop_last() =~= chars@.take(i as int));
            assert(chars@.take(i + 1).last() == c);
            if c == '\n' {
                settings = apply_ini_line_exec(settings, &line);
                line = Vec::new();
                proof {
                    let after = split_lines(chars@.take(i + 1));
                    assert(after == before.push(Seq::<char>::empty()));
                    assert(after.drop_last() =~= before);
                    assert(before =~= before.drop_last().push(before.last()));
                }
            } else {
                line.push(c);
                proof {
                    let after = split_lines(chars@.take(i + 1));
                    assert(after.drop_last() =~= before.drop_last());
                }
            }
            i = i + 1;
            proof {
                lemma_split_lines_nonempty(chars@.take(i as int));
            }
        }
        let res = apply_ini_line_exec(settings, &line);
        proof {
            let all = split_lines(chars@.take(len as int));
            assert(chars@.take(len as int) =~= contents@);
            assert(all =~= all.drop_last().push(all.last()));
        }
        res
    }
}


fn switch_str(b: bool) -> (res: &'static str)
    ensures
        res@ == switch_text(b),
{
    if b { "true" } else { "false" }
}

impl Settings {
    /// The contents of the ini file that stores these settings: one
    /// `Key=value` line per setting, switches written `true` or `false`.
    pub fn to_ini(&self) -> (res: String)
        ensures
            res@ == ini_text(*self),
    {
        let mut out = String::new();
        out.append("NotificationsEnabled=");
        out.append(switch_str(self.notifications_enabled));
        out.append("\n");
        out.append("UseNumberIcon=");
        out.append(switch_str(self.use_number_icon));
        out.append("\n");
        out.append("SidetoneEnabled=");
        out.append(switch_str(self.sidetone_enabled));
        out.append("\n");
        out.append("MicrophoneLightEnabled=");
        out.append(switch_str(self.microphone_light_enabled));
        out.append("\n");
        out.append("InactiveTimeMinutes=");
        push_decimal(&mut out, self.inactive_time_minutes as u64);
        out.append("\n");
        proof {
            reveal_strlit("\n");
            reveal_with_fuel(terminated_lines, 6);
            let lines = ini_lines(*self);
            assert(lines.drop_last().drop_last().drop_last().drop_last().drop_last()
                =~= Seq::<Seq<char>>::empty());
            assert(lines.drop_last().drop_last().drop_last().drop_last().last() == lines[0]);
            assert(lines.drop_last().drop_last().drop_last().last() == lines[1]);
            assert(lines.drop_last().drop_last().last() == lines[2]);
            assert(lines.drop_last().last() == lines[3]);
            assert(lines.last() == lines[4]);
            assert(terminated_lines(lines) =~= lines[0] + seq!['\n'] + lines[1] + seq!['\n']
                + lines[2] + seq!['\n'] + lines[3] + seq!['\n'] + lines[4] + seq!['\n']);
        }
        out
    }
}


/// True when `s` holds no line feed.
pub open spec fn no_line_feed(s: Seq<char>) -> bool {
    forall|i: int| 0 <= i < s.len() ==> #[trigger] s[i] != '\n'
}

proof fn lemma_split_append_plain(p: Seq<char>, t: Seq<char>)
    requires
        no_line_feed(t),
    ensures
        split_lines(p + t) == split_lines(p).update(
            split_lines(p).len() - 1,
            split_lines(p).last() + t,
        ),
    decreases t.len(),
{
    lemma_split_lines_nonempty(p);
    let ls = split_lines(p);
    if t.len() == 0 {
        assert(p + t =~= p);
        assert(ls.last() + t =~= ls.last());
        assert(ls.update(ls.len() - 1, ls.last() + t) =~= ls);
    } else {
        let u = t.drop_last();
        assert(no_line_feed(u)) by {
            assert forall|i: int| 0 <= i < u.len() implies #[trigger] u[i] != '\n' by {
                assert(u[i] == t[i]);
            }
        }
        lemma_split_append_plain(p, u);
        assert((p + t).drop_last() =~= p + u);
        assert((p + t).last() == t.last());
        assert(t.last() == t[t.len() - 1]);
        let prev = split_lines(p + u);
        assert(prev.last() == ls.last() + u);
        assert((ls.last() + u).push(t.last()) =~= ls.last() + t);
        assert(prev.update(prev.len() - 1, prev.last().push(t.last())) =~= ls.update(
            ls.len() - 1,
            ls.last() + t,
        ));
    }
}

proof fn lemma_split_terminated(lines: Seq<Seq<char>>)
    requires
        forall|i: int| 0 <= i < lines.len() ==> no_line_feed(#[trigger] lines[i]),
    ensures
        split_lines(terminated_lines(lines)) == lines.push(Seq::<char>::empty()),
    decreases lines.len(),
{
    if lines.len() == 0 {
        assert(split_lines(Seq::<char>::empty()) =~= seq![Seq::<char>::empty()]);
        assert(lines.push(Seq::<char>::empty()) =~= seq![Seq::<char>::empty()]);
    } else {
        let front = lines.drop_last();
        assert forall|i: int| 0 <= i < front.len() implies no_line_feed(#[trigger] front[i]) by {
            assert(front[i] == lines[i]);
        }
        lemma_split_terminated(front);
        let t = terminated_lines(front);
        assert(no_line_feed(lines.last())) by {
            assert(lines.last() == lines[lines.len() - 1]);
        }
        lemma_split_append_plain(t, lines.last());
        let with_last = split_lines(t + lines.last());
        assert(Seq::<char>::empty() + lines.last() =~= lines.last());
        assert(with_last =~= lines);
        let whole = t + lines.last() + seq!['\n'];
        assert(whole.drop_last() =~= t + lines.last());
        assert(whole.last() == '\n');
    }
}

proof fn lemma_empty_line_ignored(s: Settings)
    ensures
        apply_ini_line(s, Seq::<char>::empty()) == s,
{
    reveal_strlit("NotificationsEnabled=");
    reveal_strlit("UseNumberIcon=");
    reveal_strlit("SidetoneEnabled=");
    reveal_strlit("MicrophoneLightEnabled=");
    reveal_strlit("InactiveTimeMinutes=");
    assert(trim(Seq::<char>::empty()) == Seq::<char>::empty());
}

proof fn lemma_switch_line(prefix: Seq<char>, b: bool)
    requires
        prefix.len() > 0,
        !is_white_space(prefix[0]),
    ensures
        trim(prefix + switch_text(b)) == prefix + switch_text(b),
        starts_with(prefix + switch_text(b), prefix),
        ini_switch(prefix + switch_text(b)) == b,
        no_line_feed(prefix + switch_text(b)) <== no_line_feed(prefix),
{
    reveal_strlit("true");
    reveal_strlit("false");
    reveal_strlit("1");
    let l = prefix + switch_text(b);
    assert(l[0] == prefix[0]);
    assert(l.last() == 'e');
    crate::text::lemma_trim_fixed(l);
    assert(l.take(prefix.len() as int) =~= prefix);
    if b {
        assert(l.skip(l.len() - 4) =~= "true"@);
    } else {
        assert(l.skip(l.len() - 4)[0] == 'a');
        assert(l.skip(l.len() - 1)[0] == 'e');
    }
    if no_line_feed(prefix) {
        assert forall|i: int| 0 <= i < l.len() implies #[trigger] l[i] != '\n' by {
            if i < prefix.len() {
                assert(l[i] == prefix[i]);
            }
        }
    }
}

/// The settings written to an ini file read back as the same settings.
pub proof fn lemma_ini_round_trip(s: Settings)
    ensures
        ini_settings(ini_text(s)) == s,
{
    reveal_strlit("NotificationsEnabled=");
    reveal_strlit("UseNumberIcon=");
    reveal_strlit("SidetoneEnabled=");
    reveal_strlit("MicrophoneLightEnabled=");
    reveal_strlit("InactiveTimeMinutes=");
    let lines = ini_lines(s);
    let p0 = "NotificationsEnabled="@;
    let p1 = "UseNumberIcon="@;
    let p2 = "SidetoneEnabled="@;
    let p3 = "MicrophoneLightEnabled="@;
    let p4 = "InactiveTimeMinutes="@;
    lemma_switch_line(p0, s.notifications_enabled);
    lemma_switch_line(p1, s.use_number_icon);
    lemma_switch_line(p2, s.sidetone_enabled);
    lemma_switch_line(p3, s.microphone_light_enabled);
    let d = decimal(s.inactive_time_minutes as nat);
    crate::text::lemma_decimal_digits(s.inactive_time_minutes as nat);
    crate::text::lemma_parse_decimal(s.inactive_time_minutes);
    let l4 = p4 + d;
    assert(is_ascii_digit(d[d.len() - 1]));
    assert(l4.last() == d[d.len() - 1]);
    assert(l4[0] == 'I');
    crate::text::lemma_trim_fixed(l4);
    assert(l4.take(p4.len() as int) =~= p4);
    assert(l4.skip(p4.len() as int) =~= d);
    assert(no_line_feed(l4)) by {
        assert forall|i: int| 0 <= i < l4.len() implies #[trigger] l4[i] != '\n' by {
            if i >= p4.len() {
                assert(l4[i] == d[i - p4.len()]);
                assert(is_ascii_digit(d[i - p4.len()]));
            }
        }
    }
    assert forall|i: int| 0 <= i < lines.len() implies no_line_feed(#[trigger] lines[i]) by {}
    lemma_split_terminated(lines);
    assert(split_lines(ini_text(s)) == lines.push(Seq::<char>::empty()));
    let init = Settings::spec_initial();
    let full = lines.push(Seq::<char>::empty());
    assert(full.drop_last() =~= lines);
    lemma_empty_line_ignored(apply_ini_lines(init, lines));
    assert(lines.drop_last().drop_last().drop_last().drop_last().drop_last()
        =~= Seq::<Seq<char>>::empty());
    let s1 = apply_ini_line(init, lines[0]);
    assert(lines.drop_last().drop_last().drop_last().drop_last() =~= seq![lines[0]]);
    assert(seq![lines[0]].drop_last() =~= Seq::<Seq<char>>::empty());
    assert(apply_ini_lines(init, Seq::<Seq<char>>::empty()) == init);
    assert(apply_ini_lines(init, seq![lines[0]]) == apply_ini_line(
        apply_ini_lines(init, Seq::<Seq<char>>::empty()),
        lines[0],
    ));
    assert(apply_ini_lines(init, seq![lines[0]]) == s1);
    let s2 = apply_ini_line(s1, lines[1]);
    assert(lines.drop_last().drop_last().drop_last() =~= seq![lines[0], lines[1]]);
    assert(seq![lines[0], lines[1]].drop_last() =~= seq![lines[0]]);
    assert(apply_ini_lines(init, seq![lines[0], lines[1]]) == s2);
    let s3 = apply_ini_line(s2, lines[2]);
    assert(lines.drop_last().drop_last() =~= seq![lines[0], lines[1], lines[2]]);
    assert(seq![lines[0], lines[1], lines[2]].drop_last() =~= seq![lines[0], lines[1]]);
    assert(apply_ini_lines(init, seq![lines[0], lines[1], lines[2]]) == s3);
    let s4 = apply_ini_line(s3, lines[3]);
    assert(lines.drop_last() =~= seq![lines[0], lines[1], lines[2], lines[3]]);
    assert(seq![lines[0], lines[1], lines[2], lines[3]].drop_last() =~= seq![
        lines[0],
        lines[1],
        lines[2],
    ]);
    assert(apply_ini_lines(init, lines.drop_last()) == s4);
    assert(s1.notifications_enabled == s.notifications_enabled);
    assert(!starts_with(lines[1], p0)) by {
        if p0.len() <= lines[1].len() {
            assert(lines[1].take(p0.len() as int)[0] == lines[1][0]);
        }
    }
    assert(s2.use_number_icon == s.use_number_icon);
    assert(!starts_with(lines[2], p0)) by {
        if p0.len() <= lines[2].len() {
            assert(lines[2].take(p0.len() as int)[0] == lines[2][0]);
        }
    }
    assert(!starts_with(lines[2], p1)) by {
        if p1.len() <= lines[2].len() {
            assert(lines[2].take(p1.len() as int)[0] == lines[2][0]);
        }
    }
    assert(s3.sidetone_enabled == s.sidetone_enabled);
    assert(!starts_with(lines[3], p0)) by {
        if p0.len() <= lines[3].len() {
            assert(lines[3].take(p0.len() as int)[0] == lines[3][0]);
        }
    }
    assert(!starts_with(lines[3], p1)) by {
        if p1.len() <= lines[3].len() {
            assert(lines[3].take(p1.len() as int)[0] == lines[3][0]);
        }
    }
    assert(!starts_with(lines[3], p2)) by {
        if p2.len() <= lines[3].len() {
            assert(lines[3].take(p2.len() as int)[0] == lines[3][0]);
        }
    }
    assert(s4.microphone_light_enabled == s.microphone_light_enabled);
    assert(!starts_with(l4, p0)) by {
        if p0.len() <= l4.len() {
            assert(l4.take(p0.len() as int)[0] == l4[0]);
        }
    }
    assert(!starts_with(l4, p1)) by {
        if p1.len() <= l4.len() {
            assert(l4.take(p1.len() as int)[0] == l4[0]);
        }
    }
    assert(!starts_with(l4, p2)) by {
        if p2.len() <= l4.len() {
            assert(l4.take(p2.len() as int)[0] == l4[0]);
        }
    }
    assert(!starts_with(l4, p3)) by {
        if p3.len() <= l4.len() {
            assert(l4.take(p3.len() as int)[0] == l4[0]);
        }
    }
    let s5 = apply_ini_line(s4, lines[4]);
    assert(s5 == s);
}


/// A line whose trimmed text is `InactiveTimeMinutes=` and the decimal
/// notation of `n` sets the minutes to `n` and nothing else, whatever white
/// space (such as the `\r` of a Windows line end) surrounds it.
pub proof fn lemma_ini_minutes_line(s: Settings, raw: Seq<char>, n: u8)
    requires
        trim(raw) == "InactiveTimeMinutes="@ + decimal(n as nat),
    ensures
        apply_ini_line(s, raw) == (Settings { inactive_time_minutes: n, ..s }),
{
    reveal_strlit("NotificationsEnabled=");
    reveal_strlit("UseNumberIcon=");
    reveal_strlit("SidetoneEnabled=");
    reveal_strlit("MicrophoneLightEnabled=");
    reveal_strlit("InactiveTimeMinutes=");
    let p4 = "InactiveTimeMinutes="@;
    let d = decimal(n as nat);
    let l = trim(raw);
    crate::text::lemma_decimal_digits(n as nat);
    crate::text::lemma_parse_decimal(n);
    assert(l[0] == 'I');
    assert(l.take(p4.len() as int) =~= p4);
    assert(l.skip(p4.len() as int) =~= d);
    let p0 = "NotificationsEnabled="@;
    let p1 = "UseNumberIcon="@;
    let p2 = "SidetoneEnabled="@;
    let p3 = "MicrophoneLightEnabled="@;
    assert(!starts_with(l, p0)) by {
        if p0.len() <= l.len() {
            assert(l.take(p0.len() as int)[0] == l[0]);
        }
    }
    assert(!starts_with(l, p1)) by {
        if p1.len() <= l.len() {
            assert(l.take(p1.len() as int)[0] == l[0]);
        }
    }
    assert(!starts_with(l, p2)) by {
        if p2.len() <= l.len() {
            assert(l.take(p2.len() as int)[0] == l[0]);
        }
    }
    assert(!starts_with(l, p3)) by {
        if p3.len() <= l.len() {
            assert(l.take(p3.len() as int)[0] == l[0]);
        }
    }
}

/// A line whose trimmed text is a switch's key, `=`, and `true` or `false`
/// sets that switch accordingly and nothing else, whatever white space
/// surrounds it.
pub proof fn lemma_ini_switch_lines(s: Settings, raw: Seq<char>, b: bool)
    ensures
        trim(raw) == "NotificationsEnabled="@ + switch_text(b) ==> apply_ini_line(s, raw) == (
        Settings { notifications_enabled: b, ..s }),
        trim(raw) == "UseNumberIcon="@ + switch_text(b) ==> apply_ini_line(s, raw) == (Settings {
            use_number_icon: b,
            ..s
        }),
        trim(raw) == "SidetoneEnabled="@ + switch_text(b) ==> apply_ini_line(s, raw) == (
        Settings { sidetone_enabled: b, ..s }),
        trim(raw) == "MicrophoneLightEnabled="@ + switch_text(b) ==> apply_ini_line(s, raw) == (
        Settings { microphone_light_enabled: b, ..s }),
{
    reveal_strlit("NotificationsEnabled=");
    reveal_strlit("UseNumberIcon=");
    reveal_strlit("SidetoneEnabled=");
    reveal_strlit("MicrophoneLightEnabled=");
    reveal_strlit("InactiveTimeMinutes=");
    let l = trim(raw);
    let p0 = "NotificationsEnabled="@;
    let p1 = "UseNumberIcon="@;
    let p2 = "SidetoneEnabled="@;
    let p3 = "MicrophoneLightEnabled="@;
    lemma_switch_line(p0, b);
    lemma_switch_line(p1, b);
    lemma_switch_line(p2, b);
    lemma_switch_line(p3, b);
    if l == p1 + switch_text(b) {
        assert(l[0] == 'U');
        assert(!starts_with(l, p0)) by {
            if p0.len() <= l.len() {
                assert(l.take(p0.len() as int)[0] == l[0]);
            }
        }
    }
    if l == p2 + switch_text(b) {
        assert(l[0] == 'S');
        assert(!starts_with(l, p0)) by {
            if p0.len() <= l.len() {
                assert(l.take(p0.len() as int)[0] == l[0]);
            }
        }
        assert(!starts_with(l, p1)) by {
            if p1.len() <= l.len() {
                assert(l.take(p1.len() as int)[0] == l[0]);
            }
        }
    }
    if l == p3 + switch_text(b) {
        assert(l[0] == 'M');
        assert(!starts_with(l, p0)) by {
            if p0.len() <= l.len() {
                assert(l.take(p0.len() as int)[0] == l[0]);
            }
        }
        assert(!starts_with(l, p1)) by {
            if p1.len() <= l.len() {
                assert(l.take(p1.len() as int)[0] == l[0]);
            }
        }
        assert(!starts_with(l, p2)) by {
            if p2.len() <= l.len() {
                assert(l.take(p2.len() as int)[0] == l[0]);
            }
        }
    }
}


proof fn lemma_ini_lines_shape(s: Settings)
    ensures
        ini_lines(s).len() == 5,
        forall|i: int|
            0 <= i < 5 ==> {
                let l = #[trigger] ini_lines(s)[i];
                &&& l.len() > 0
                &&& !is_white_space(l[0])
                &&& !is_white_space(l.last())
                &&& no_line_feed(l)
            },
{
    reveal_strlit("NotificationsEnabled=");
    reveal_strlit("UseNumberIcon=");
    reveal_strlit("SidetoneEnabled=");
    reveal_strlit("MicrophoneLightEnabled=");
    reveal_strlit("InactiveTimeMinutes=");
    reveal_strlit("true");
    reveal_strlit("false");
    let lines = ini_lines(s);
    let p0 = "NotificationsEnabled="@;
    let p1 = "UseNumberIcon="@;
    let p2 = "SidetoneEnabled="@;
    let p3 = "MicrophoneLightEnabled="@;
    let p4 = "InactiveTimeMinutes="@;
    lemma_switch_line(p0, s.notifications_enabled);
    lemma_switch_line(p1, s.use_number_icon);
    lemma_switch_line(p2, s.sidetone_enabled);
    lemma_switch_line(p3, s.microphone_light_enabled);
    let d = decimal(s.inactive_time_minutes as nat);
    crate::text::lemma_decimal_digits(s.inactive_time_minutes as nat);
    let l4 = p4 + d;
    assert(is_ascii_digit(d[d.len() - 1]));
    assert(l4.last() == d[d.len() - 1]);
    assert(no_line_feed(l4)) by {
        assert forall|i: int| 0 <= i < l4.len() implies #[trigger] l4[i] != '\n' by {
            if i >= p4.len() {
                assert(l4[i] == d[i - p4.len()]);
                assert(is_ascii_digit(d[i - p4.len()]));
            }
        }
    }
    assert(lines[0][0] == 'N');
    assert(lines[1][0] == 'U');
    assert(lines[2][0] == 'S');
    assert(lines[3][0] == 'M');
    assert(lines[4][0] == 'I');
    assert(lines[0].last() == 'e');
    assert(lines[1].last() == 'e');
    assert(lines[2].last() == 'e');
    assert(lines[3].last() == 'e');
}

proof fn lemma_trim_carriage_return(l: Seq<char>)
    requires
        l.len() > 0,
        !is_white_space(l[0]),
        !is_white_space(l.last()),
    ensures
        trim(l.push('\r')) == l,
{
    let t = l.push('\r');
    assert(t[0] == l[0]);
    assert(crate::text::trim_start(t) == t);
    assert(t.drop_last() =~= l);
    assert(is_white_space(t.last()));
    assert(crate::text::trim_end(t) == crate::text::trim_end(l));
    crate::text::lemma_trim_fixed(l);
    assert(crate::text::trim_start(l) == l);
}

proof fn lemma_apply_lines_same_trim(s: Settings, a: Seq<Seq<char>>, b: Seq<Seq<char>>)
    requires
        a.len() == b.len(),
        forall|i: int| 0 <= i < a.len() ==> trim(#[trigger] a[i]) == trim(b[i]),
    ensures
        apply_ini_lines(s, a) == apply_ini_lines(s, b),
    decreases a.len(),
{
    if a.len() > 0 {
        assert forall|i: int| 0 <= i < a.drop_last().len() implies trim(
            #[trigger] a.drop_last()[i],
        ) == trim(b.drop_last()[i]) by {
            assert(a.drop_last()[i] == a[i]);
            assert(b.drop_last()[i] == b[i]);
        }
        lemma_apply_lines_same_trim(s, a.drop_last(), b.drop_last());
        assert(trim(a.last()) == trim(b.last())) by {
            assert(a.last() == a[a.len() - 1]);
            assert(b.last() == b[b.len() - 1]);
        }
    }
}

/// The ini file of `s` written with Windows line ends (`\r\n`).
pub open spec fn ini_text_with_crlf(s: Settings) -> Seq<char> {
    terminated_lines(ini_lines(s).map_values(|l: Seq<char>| l.push('\r')))
}

/// A settings file saved with Windows line ends reads back as the same settings.
pub proof fn lemma_ini_crlf_round_trip(s: Settings)
    ensures
        ini_settings(ini_text_with_crlf(s)) == s,
{
    let lines = ini_lines(s);
    let crlf = lines.map_values(|l: Seq<char>| l.push('\r'));
    lemma_ini_lines_shape(s);
    assert forall|i: int| 0 <= i < crlf.len() implies no_line_feed(#[trigger] crlf[i]) by {
        let l = lines[i];
        assert(crlf[i] == l.push('\r'));
        assert(no_line_feed(l));
        assert forall|j: int| 0 <= j < l.push('\r').len() implies #[trigger] l.push('\r')[j]
            != '\n' by {
            if j < l.len() {
                assert(l.push('\r')[j] == l[j]);
            }
        }
    }
    lemma_split_terminated(crlf);
    assert forall|i: int| 0 <= i < lines.len() ==> no_line_feed(#[trigger] lines[i]) by {}
    lemma_split_terminated(lines);
    lemma_ini_round_trip(s);
    let a = crlf.push(Seq::<char>::empty());
    let b = lines.push(Seq::<char>::empty());
    assert forall|i: int| 0 <= i < a.len() implies trim(#[trigger] a[i]) == trim(b[i]) by {
        if i < 5 {
            assert(a[i] == lines[i].push('\r'));
            lemma_trim_carriage_return(lines[i]);
            crate::text::lemma_trim_fixed(lines[i]);
        }
    }
    lemma_apply_lines_same_trim(Settings::spec_initial(), a, b);
}

} // verus!
