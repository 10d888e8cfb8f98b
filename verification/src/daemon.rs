use vstd::prelude::*;
use vstd::string::StringExecFns;
use crate::configuration::{
    all_attached, app_configuration_wf, clone_strings, layout_tree, positions_acyclic,
    strings_view, AppConfiguration,
};
use crate::input_source::MonitorInputSource;
use crate::keyed::entry_keys;
use crate::text::{lemma_str_lt_order, str_lt};
use crate::monitor::{clone_opt_string, opt_string_view, MonitorInformation, MonitorInformationView};
use crate::output_state::{clone_configuration, configuration_view};
use crate::position_tree::tree_rendering;

verus! {

/// The text of one decimal digit.
pub open spec fn digit_text(d: nat) -> Seq<char> {
    if d == 0 {
        "0"@
    } else if d == 1 {
        "1"@
    } else if d == 2 {
        "2"@
    } else if d == 3 {
        "3"@
    } else if d == 4 {
        "4"@
    } else if d == 5 {
        "5"@
    } else if d == 6 {
        "6"@
    } else if d == 7 {
        "7"@
    } else if d == 8 {
        "8"@
    } else {
        "9"@
    }
}

/// The decimal text of `n`, without leading zeros.
pub open spec fn decimal_text(n: nat) -> Seq<char>
    decreases n,
{
    if n < 10 {
        digit_text(n)
    } else {
        decimal_text(n / 10) + digit_text(n % 10)
    }
}

fn push_digit(text: &mut String, d: u8)
    requires
        d < 10,
    ensures
        final(text)@ == old(text)@ + digit_text(d as nat),
{
    match d {
        0 => text.append("0"),
        1 => text.append("1"),
        2 => text.append("2"),
        3 => text.append("3"),
        4 => text.append("4"),
        5 => text.append("5"),
        6 => text.append("6"),
        7 => text.append("7"),
        8 => text.append("8"),
        _ => text.append("9"),
    }
}

/// Appends the decimal text of `n`.
pub fn push_decimal(text: &mut String, n: u8)
    ensures
        final(text)@ == old(text)@ + decimal_text(n as nat),
{
    let ghost start = text@;
    if n >= 100 {
        push_digit(text, n / 100);
        push_digit(text, (n / 10) % 10);
        push_digit(text, n % 10);
        assert((n / 10) / 10 == n / 100);
        assert(decimal_text((n / 100) as nat) == digit_text((n / 100) as nat));
        assert(decimal_text((n / 10) as nat) == decimal_text((n / 100) as nat) + digit_text(
            ((n / 10) % 10) as nat,
        ));
        assert(decimal_text(n as nat) == decimal_text((n / 10) as nat) + digit_text((n % 10) as nat));
        assert(text@ =~= start + decimal_text(n as nat));
    } else if n >= 10 {
        push_digit(text, n / 10);
        push_digit(text, n % 10);
        assert(decimal_text((n / 10) as nat) == digit_text((n / 10) as nat));
        assert(text@ =~= start + decimal_text(n as nat));
    } else {
        push_digit(text, n);
    }
}

/// The number that a text of decimal digits stands for, read from the left.
pub open spec fn decimal_value(t: Seq<char>) -> int
    decreases t.len(),
{
    if t.len() == 0 {
        0
    } else {
        decimal_value(t.drop_last()) * 10 + (t.last() as int - '0' as int)
    }
}

/// A character among `0` to `9`.
pub open spec fn is_decimal_digit(c: char) -> bool {
    '0' <= c && c <= '9'
}

/// The text of a digit is that one digit character.
pub proof fn lemma_digit_text(d: nat)
    requires
        d < 10,
    ensures
        digit_text(d).len() == 1,
        is_decimal_digit(digit_text(d)[0]),
        digit_text(d)[0] as int - '0' as int == d,
{
    reveal_strlit("0");
    reveal_strlit("1");
    reveal_strlit("2");
    reveal_strlit("3");
    reveal_strlit("4");
    reveal_strlit("5");
    reveal_strlit("6");
    reveal_strlit("7");
    reveal_strlit("8");
    reveal_strlit("9");
}

/// The decimal text of `n` is made of digits, has no leading zero, and
/// reads back as `n`.
pub proof fn lemma_decimal_text_reads_back(n: nat)
    ensures
        decimal_value(decimal_text(n)) == n,
        decimal_text(n).len() > 0,
        forall|i: int| 0 <= i < decimal_text(n).len() ==> is_decimal_digit(#[trigger] decimal_text(n)[i]),
        n > 0 ==> decimal_text(n)[0] != '0',
    decreases n,
{
    if n < 10 {
        lemma_digit_text(n);
        let t = decimal_text(n);
        assert(t.drop_last() =~= Seq::<char>::empty());
        assert(t.last() == t[0]);
        assert(decimal_value(t) == decimal_value(t.drop_last()) * 10 + (t.last() as int - '0' as int));
    } else {
        lemma_decimal_text_reads_back(n / 10);
        lemma_digit_text(n % 10);
        let a = decimal_text(n / 10);
        let t = decimal_text(n);
        assert(t == a + digit_text(n % 10));
        assert(t.drop_last() =~= a);
        assert(t.last() == digit_text(n % 10)[0]);
        assert(t[0] == a[0]);
        assert(decimal_value(t) == decimal_value(a) * 10 + (n % 10));
        assert((n / 10) * 10 + n % 10 == n);
        assert forall|i: int| 0 <= i < t.len() implies is_decimal_digit(#[trigger] t[i]) by {
            if i < a.len() {
                assert(t[i] == a[i]);
            } else {
                assert(t[i] == digit_text(n % 10)[0]);
            }
        }
    }
}

/// Different numbers have different decimal texts.
pub proof fn lemma_decimal_text_injective(a: nat, b: nat)
    requires
        decimal_text(a) == decimal_text(b),
    ensures
        a == b,
{
    lemma_decimal_text_reads_back(a);
    lemma_decimal_text_reads_back(b);
}

/// How an input source is shown to users: its variant name, and the code
/// in parentheses for `Other`.
pub open spec fn source_text(source: MonitorInputSource) -> Seq<char> {
    match source {
        MonitorInputSource::Vga1 => "Vga1"@,
        MonitorInputSource::Vga2 => "Vga2"@,
        MonitorInputSource::Dvi1 => "Dvi1"@,
        MonitorInputSource::Dvi2 => "Dvi2"@,
        MonitorInputSource::Hdmi1 => "Hdmi1"@,
        MonitorInputSource::Hdmi2 => "Hdmi2"@,
        MonitorInputSource::Dp1 => "Dp1"@,
        MonitorInputSource::Dp2 => "Dp2"@,
        MonitorInputSource::Other(x) => "Other("@ + decimal_text(x as nat) + ")"@,
    }
}

proof fn lemma_named_source_text(s: MonitorInputSource)
    requires
        !(s is Other),
    ensures
        ({
            let t = source_text(s);
            match s {
                MonitorInputSource::Vga1 => t.len() == 4 && t[0] == 'V' && t[3] == '1',
                MonitorInputSource::Vga2 => t.len() == 4 && t[0] == 'V' && t[3] == '2',
                MonitorInputSource::Dvi1 => t.len() == 4 && t[0] == 'D' && t[3] == '1',
                MonitorInputSource::Dvi2 => t.len() == 4 && t[0] == 'D' && t[3] == '2',
                MonitorInputSource::Hdmi1 => t.len() == 5 && t[0] == 'H' && t[4] == '1',
                MonitorInputSource::Hdmi2 => t.len() == 5 && t[0] == 'H' && t[4] == '2',
                MonitorInputSource::Dp1 => t.len() == 3 && t[0] == 'D' && t[2] == '1',
                MonitorInputSource::Dp2 => t.len() == 3 && t[0] == 'D' && t[2] == '2',
                MonitorInputSource::Other(_) => true,
            }
        }),
{
    reveal_strlit("Vga1");
    reveal_strlit("Vga2");
    reveal_strlit("Dvi1");
    reveal_strlit("Dvi2");
    reveal_strlit("Hdmi1");
    reveal_strlit("Hdmi2");
    reveal_strlit("Dp1");
    reveal_strlit("Dp2");
}

/// Different input sources are shown differently: the text of a source
/// tells which source it is.
pub proof fn lemma_source_text_injective(a: MonitorInputSource, b: MonitorInputSource)
    requires
        source_text(a) == source_text(b),
    ensures
        a == b,
{
    reveal_strlit("Vga1");
    reveal_strlit("Vga2");
    reveal_strlit("Dvi1");
    reveal_strlit("Dvi2");
    reveal_strlit("Hdmi1");
    reveal_strlit("Hdmi2");
    reveal_strlit("Dp1");
    reveal_strlit("Dp2");
    reveal_strlit("Other(");
    reveal_strlit(")");
    let ta = source_text(a);
    let tb = source_text(b);
    assert(ta.len() == tb.len());
    assert(ta[0] == tb[0]);
    match a {
        MonitorInputSource::Other(x) => {
            lemma_decimal_text_reads_back(x as nat);
            assert(ta[0] == 'O');
            match b {
                MonitorInputSource::Other(y) => {
                    lemma_decimal_text_reads_back(y as nat);
                    let dx = decimal_text(x as nat);
                    let dy = decimal_text(y as nat);
                    assert(ta.subrange(6, ta.len() - 1) =~= dx);
                    assert(tb.subrange(6, tb.len() - 1) =~= dy);
                    assert(dx == dy);
                    lemma_decimal_text_injective(x as nat, y as nat);
                    assert(x == y);
                },
                _ => {
                    assert(tb[0] == 'V' || tb[0] == 'D' || tb[0] == 'H');
                },
            }
        },
        _ => {
            match b {
                MonitorInputSource::Other(y) => {
                    lemma_decimal_text_reads_back(y as nat);
                    assert(tb[0] == 'O');
                },
                _ => {
                    lemma_named_source_text(a);
                    lemma_named_source_text(b);
                    assert(ta[ta.len() - 1] == tb[tb.len() - 1]);
                },
            }
        },
    }
}

/// Appends how `source` is shown to users.
pub fn push_source_text(text: &mut String, source: MonitorInputSource)
    ensures
        final(text)@ == old(text)@ + source_text(source),
{
    match source {
        MonitorInputSource::Vga1 => text.append("Vga1"),
        MonitorInputSource::Vga2 => text.append("Vga2"),
        MonitorInputSource::Dvi1 => text.append("Dvi1"),
        MonitorInputSource::Dvi2 => text.append("Dvi2"),
        MonitorInputSource::Hdmi1 => text.append("Hdmi1"),
        MonitorInputSource::Hdmi2 => text.append("Hdmi2"),
        MonitorInputSource::Dp1 => text.append("Dp1"),
        MonitorInputSource::Dp2 => text.append("Dp2"),
        MonitorInputSource::Other(x) => {
            text.append("Other(");
            push_decimal(text, x);
            text.append(")");
            assert(text@ =~= old(text)@ + source_text(source));
        },
    }
}


/// The monitors of `heads` with a serial number and an id outside
/// `connected`, in order, each with its serial number.
pub open spec fn ddc_candidates_spec(connected: Seq<u64>, heads: Seq<MonitorInformationView>) -> Seq<
    (u64, Seq<char>),
>
    decreases heads.len(),
{
    if heads.len() == 0 {
        Seq::empty()
    } else {
        let rest = ddc_candidates_spec(connected, heads.drop_last());
        let m = heads.last();
        if m.serial is Some && !connected.contains(m.id) {
            rest.push((m.id, m.serial->0))
        } else {
            rest
        }
    }
}

pub open spec fn candidates_view(c: Seq<(u64, String)>) -> Seq<(u64, Seq<char>)> {
    c.map_values(|e: (u64, String)| (e.0, e.1@))
}

/// `i` is the first profile whose screens are all attached.
pub open spec fn is_first_connected(
    config: AppConfiguration,
    heads: Seq<MonitorInformationView>,
    i: int,
) -> bool {
    &&& 0 <= i < config@.profiles.len()
    &&& all_attached(config@.profiles[i].1.screens@, heads)
    &&& forall|j: int| 0 <= j < i ==> !all_attached(#[trigger] config@.profiles[j].1.screens@, heads)
}

/// The first profile, in the order of names, whose screens are all attached.
pub open spec fn first_connected(config: AppConfiguration, heads: Seq<MonitorInformationView>) -> Option<
    int,
> {
    if exists|i: int| is_first_connected(config, heads, i) {
        Some(choose|i: int| is_first_connected(config, heads, i))
    } else {
        None
    }
}

/// What the daemon knows: the attached monitors, the settings, the profile
/// applied last, and the monitors it holds a DDC connection to.
pub struct DaemonState {
    pub head_state: Vec<MonitorInformation>,
    pub config: AppConfiguration,
    pub current_profile: Option<String>,
    pub ddc_connections: Vec<u64>,
}

/// A profile that was applied, with the drawing of its layout tree and the
/// commands to run, in order.
pub struct AppliedProfile {
    pub name: String,
    pub display: String,
    pub skripts: Vec<String>,
}

/// What follows from a new set of attached monitors.
pub struct MonitorsChanged {
    /// The DDC connections to monitors that are gone, to be closed.
    pub closed_ddc_connections: Vec<u64>,
    /// The profile applied for the new monitors, if one is connected.
    pub applied: Option<AppliedProfile>,
}

/// The answer to a request to apply a profile by name.
pub enum ApplyOutcome {
    /// The drawing of the layout tree, and the profile's commands to run,
    /// in order.
    Applied { display: String, skripts: Vec<String> },
    /// No such profile; the text is the reply.
    Unknown { reply: String },
}

/// `i` is the first position of `heads` with id `id`.
pub open spec fn is_first_head(heads: Seq<MonitorInformationView>, id: u64, i: int) -> bool {
    &&& 0 <= i < heads.len()
    &&& heads[i].id == id
    &&& forall|j: int| 0 <= j < i ==> heads[j].id != id
}

/// Whether some monitor of `heads` has id `id`.
pub open spec fn has_head(heads: Seq<MonitorInformationView>, id: u64) -> bool {
    exists|j: int| 0 <= j < heads.len() && heads[j].id == id
}

/// The line that lists one attached monitor: its name, its make and its
/// serial number (nothing when it has none), and an empty line after it.
pub open spec fn attached_line(m: MonitorInformationView) -> Seq<char> {
    m.name + ": "@ + m.make + " "@ + match m.serial {
        Some(s) => s,
        None => Seq::empty(),
    } + "\n\n"@
}

pub open spec fn attached_lines(heads: Seq<MonitorInformationView>) -> Seq<char>
    decreases heads.len(),
{
    if heads.len() == 0 {
        Seq::empty()
    } else {
        attached_lines(heads.drop_last()) + attached_line(heads.last())
    }
}

/// The report of two lists of monitors, one after the other, is the report
/// of the first followed by the report of the second.
pub proof fn lemma_attached_lines_append(a: Seq<MonitorInformationView>, b: Seq<MonitorInformationView>)
    ensures
        attached_lines(a + b) == attached_lines(a) + attached_lines(b),
    decreases b.len(),
{
    if b.len() == 0 {
        assert(a + b =~= a);
        assert(attached_lines(a) + attached_lines(b) =~= attached_lines(a));
    } else {
        lemma_attached_lines_append(a, b.drop_last());
        assert((a + b).drop_last() =~= a + b.drop_last());
        assert((a + b).last() == b.last());
    }
}

/// Every monitor gets its own line, whatever its other properties: its
/// name, `: `, its make, a space, its serial number (nothing when it has
/// none), then an empty line.
pub proof fn lemma_attached_line_of_each_monitor(m: MonitorInformationView)
    ensures
        attached_lines(seq![m]) == m.name + ": "@ + m.make + " "@ + match m.serial {
            Some(s) => s,
            None => Seq::<char>::empty(),
        } + "\n\n"@,
{
    assert(seq![m].drop_last() =~= Seq::<MonitorInformationView>::empty());
    assert(attached_lines(Seq::<MonitorInformationView>::empty()) == Seq::<char>::empty());
    assert(Seq::<char>::empty() + attached_line(m) =~= attached_line(m));
}

/// The report holds one line for each monitor, in order: the report of
/// the monitors before position `k`, the line of the monitor at `k`, then
/// the report of the monitors after it.
pub proof fn lemma_attached_lines_one_per_monitor(heads: Seq<MonitorInformationView>, k: int)
    requires
        0 <= k < heads.len(),
    ensures
        attached_lines(heads) == attached_lines(heads.take(k)) + attached_lines(seq![heads[k]])
            + attached_lines(heads.skip(k + 1)),
{
    assert(heads =~= heads.take(k) + seq![heads[k]] + heads.skip(k + 1));
    lemma_attached_lines_append(heads.take(k) + seq![heads[k]], heads.skip(k + 1));
    lemma_attached_lines_append(heads.take(k), seq![heads[k]]);
}

/// The report depends on nothing but each monitor's name, make and serial
/// number.
pub proof fn lemma_attached_lines_shown_fields(a: Seq<MonitorInformationView>, b: Seq<MonitorInformationView>)
    requires
        a.len() == b.len(),
        forall|i: int|
            0 <= i < a.len() ==> #[trigger] a[i].name == b[i].name && a[i].make == b[i].make
                && a[i].serial == b[i].serial,
    ensures
        attached_lines(a) == attached_lines(b),
    decreases a.len(),
{
    if a.len() > 0 {
        lemma_attached_lines_shown_fields(a.drop_last(), b.drop_last());
        assert(a.last() == a[a.len() - 1]);
        assert(b.last() == b[b.len() - 1]);
    }
}

/// The serial number of `m`, or nothing.
pub open spec fn serial_text(m: MonitorInformationView) -> Seq<char> {
    match m.serial {
        Some(s) => s,
        None => Seq::empty(),
    }
}

pub fn has_id(ids: &Vec<u64>, id: u64) -> (r: bool)
    ensures
        r == ids@.contains(id),
{
    for i in 0..ids.len()
        invariant
            forall|j: int| 0 <= j < i ==> ids@[j] != id,
    {
        if ids[i] == id {
            return true;
        }
    }
    false
}

/// Whether some monitor of `heads` has id `id`.
pub fn heads_have_id(heads: &Vec<MonitorInformation>, id: u64) -> (r: bool)
    ensures
        r == has_head(configuration_view(heads@), id),
{
    for i in 0..heads.len()
        invariant
            forall|j: int| 0 <= j < i ==> configuration_view(heads@)[j].id != id,
    {
        if heads[i].id == id {
            assert(configuration_view(heads@)[i as int].id == id);
            return true;
        }
    }
    false
}

impl Default for DaemonState {
    /// No monitors, default settings, nothing applied, no connections.
    fn default() -> (s: Self)
        ensures
            s.head_state@.len() == 0,
            s.config@.hyprland_config_file == crate::configuration::default_hyprland_config_file(),
            s.config@.profiles.len() == 0,
            s.current_profile is None,
            s.ddc_connections@.len() == 0,
    {
        DaemonState {
            head_state: Vec::new(),
            config: AppConfiguration::default(),
            current_profile: None,
            ddc_connections: Vec::new(),
        }
    }
}

impl DaemonState {
    /// The monitors of `monitors` with a serial number and no DDC connection
    /// yet, in order, each with its serial number.
    pub fn ddc_candidates(&self, monitors: &Vec<MonitorInformation>) -> (r: Vec<(u64, String)>)
        ensures
            candidates_view(r@) == ddc_candidates_spec(self.ddc_connections@, configuration_view(
                monitors@,
            )),
    {
        let ghost ids = self.ddc_connections@;
        let ghost mv = configuration_view(monitors@);
        let mut r: Vec<(u64, String)> = Vec::new();
        assert(mv.take(0) =~= Seq::<MonitorInformationView>::empty());
        assert(candidates_view(r@) =~= Seq::empty());
        for i in 0..monitors.len()
            invariant
                ids == self.ddc_connections@,
                mv == configuration_view(monitors@),
                candidates_view(r@) == ddc_candidates_spec(ids, mv.take(i as int)),
        {
            let ghost before = r@;
            let m = &monitors[i];
            assert(mv.take(i + 1).drop_last() =~= mv.take(i as int));
            assert(mv.take(i + 1).last() == m@);
            match &m.serial {
                Some(serial) => {
                    if !has_id(&self.ddc_connections, m.id) {
                        let s2 = serial.clone();
                        r.push((m.id, s2));
                        assert(candidates_view(r@) =~= candidates_view(before).push((m.id, s2@)));
                    } else {
                        assert(r@ == before);
                    }
                },
                None => {
                    assert(r@ == before);
                },
            }
        }
        assert(mv.take(monitors@.len() as int) =~= mv);
        r
    }

    /// Records a DDC connection to monitor `id`.
    pub fn record_ddc_connection(&mut self, id: u64)
        ensures
            final(self).ddc_connections@ == if old(self).ddc_connections@.contains(id) {
                old(self).ddc_connections@
            } else {
                old(self).ddc_connections@.push(id)
            },
            final(self).head_state@ == old(self).head_state@,
            final(self).config == old(self).config,
            final(self).current_profile == old(self).current_profile,
    {
        if !has_id(&self.ddc_connections, id) {
            self.ddc_connections.push(id);
        }
    }
}


/// The ids of `ids` that some monitor of `heads` has (`present`), or that
/// none has (`!present`), in order.
pub open spec fn ids_by_presence(ids: Seq<u64>, heads: Seq<MonitorInformationView>, present: bool) -> Seq<
    u64,
>
    decreases ids.len(),
{
    if ids.len() == 0 {
        Seq::empty()
    } else {
        let rest = ids_by_presence(ids.drop_last(), heads, present);
        if has_head(heads, ids.last()) == present {
            rest.push(ids.last())
        } else {
            rest
        }
    }
}

/// `i` is the first profile named `name`.
pub open spec fn is_first_named(config: AppConfiguration, name: Seq<char>, i: int) -> bool {
    &&& 0 <= i < config@.profiles.len()
    &&& config@.profiles[i].0@ == name
    &&& forall|j: int| 0 <= j < i ==> config@.profiles[j].0@ != name
}

/// The connections kept are exactly those to attached monitors, and the
/// connections closed exactly those to monitors that are gone.
pub proof fn lemma_ids_by_presence(ids: Seq<u64>, heads: Seq<MonitorInformationView>, id: u64)
    ensures
        ids_by_presence(ids, heads, true).contains(id) <==> ids.contains(id) && has_head(heads, id),
        ids_by_presence(ids, heads, false).contains(id) <==> ids.contains(id) && !has_head(heads, id),
    decreases ids.len(),
{
    if ids.len() > 0 {
        lemma_ids_by_presence(ids.drop_last(), heads, id);
        assert(ids =~= ids.drop_last().push(ids.last()));
        if ids.contains(id) && id != ids.last() {
            let i = choose|i: int| 0 <= i < ids.len() && ids[i] == id;
            assert(ids.drop_last()[i] == id);
        }
        if ids.drop_last().contains(id) {
            let i = choose|i: int| 0 <= i < ids.drop_last().len() && ids.drop_last()[i] == id;
            assert(ids[i] == id);
        }
        let t = ids_by_presence(ids.drop_last(), heads, true);
        let f = ids_by_presence(ids.drop_last(), heads, false);
        if t.contains(id) {
            let i = choose|i: int| 0 <= i < t.len() && t[i] == id;
            assert(t.push(ids.last())[i] == id);
        }
        if f.contains(id) {
            let i = choose|i: int| 0 <= i < f.len() && f[i] == id;
            assert(f.push(ids.last())[i] == id);
        }
        if t.push(ids.last()).contains(id) && id != ids.last() {
            let i = choose|i: int| 0 <= i < t.len() + 1 && t.push(ids.last())[i] == id;
            assert(t[i] == id);
        }
        if f.push(ids.last()).contains(id) && id != ids.last() {
            let i = choose|i: int| 0 <= i < f.len() + 1 && f.push(ids.last())[i] == id;
            assert(f[i] == id);
        }
        assert(t.push(ids.last())[t.len() as int] == ids.last());
        assert(f.push(ids.last())[f.len() as int] == ids.last());
        assert(ids[ids.len() - 1] == ids.last());
    }
}

/// The candidates for a DDC connection are exactly the attached monitors
/// with a serial number and no connection yet, each with that serial number.
pub proof fn lemma_ddc_candidates(
    connected: Seq<u64>,
    heads: Seq<MonitorInformationView>,
    id: u64,
    serial: Seq<char>,
)
    ensures
        ddc_candidates_spec(connected, heads).contains((id, serial)) <==> !connected.contains(id)
            && exists|j: int| 0 <= j < heads.len() && heads[j].id == id && heads[j].serial == Some(serial),
    decreases heads.len(),
{
    if heads.len() > 0 {
        let d = heads.drop_last();
        lemma_ddc_candidates(connected, d, id, serial);
        let r = ddc_candidates_spec(connected, d);
        let m = heads.last();
        let x = (id, serial);
        if r.contains(x) {
            let i = choose|i: int| 0 <= i < r.len() && r[i] == x;
            assert(r.push((m.id, m.serial->0))[i] == x);
            let j = choose|j: int| 0 <= j < d.len() && d[j].id == id && d[j].serial == Some(serial);
            assert(heads[j] == d[j]);
        }
        if m.serial is Some && !connected.contains(m.id) {
            let r2 = r.push((m.id, m.serial->0));
            assert(r2[r.len() as int] == (m.id, m.serial->0));
            if r2.contains(x) && x != (m.id, m.serial->0) {
                let i = choose|i: int| 0 <= i < r2.len() && r2[i] == x;
                assert(r[i] == x);
            }
        }
        if exists|j: int| 0 <= j < heads.len() && heads[j].id == id && heads[j].serial == Some(serial) {
            let j = choose|j: int| 0 <= j < heads.len() && heads[j].id == id && heads[j].serial == Some(serial);
            if j < heads.len() - 1 {
                assert(d[j] == heads[j]);
            } else {
                assert(heads[heads.len() - 1] == m);
            }
        }
    }
}

/// With the profiles sorted by name, the first connected profile is the
/// one with the least name among the connected ones.
pub proof fn lemma_first_connected_least_name(
    config: AppConfiguration,
    heads: Seq<MonitorInformationView>,
)
    requires
        app_configuration_wf(config@),
    ensures
        match first_connected(config, heads) {
            Some(i) => {
                &&& 0 <= i < config@.profiles.len()
                &&& all_attached(config@.profiles[i].1.screens@, heads)
                &&& forall|j: int|
                    0 <= j < config@.profiles.len() && j != i && all_attached(
                        #[trigger] config@.profiles[j].1.screens@,
                        heads,
                    ) ==> str_lt(config@.profiles[i].0@, config@.profiles[j].0@)
            },
            None => forall|j: int|
                0 <= j < config@.profiles.len() ==> !all_attached(
                    #[trigger] config@.profiles[j].1.screens@,
                    heads,
                ),
        },
{
    if exists|i: int| is_first_connected(config, heads, i) {
        let i = choose|i: int| is_first_connected(config, heads, i);
        assert forall|j: int|
            0 <= j < config@.profiles.len() && j != i && all_attached(
                #[trigger] config@.profiles[j].1.screens@,
                heads,
            ) implies str_lt(config@.profiles[i].0@, config@.profiles[j].0@) by {
            assert(entry_keys(config@.profiles)[i] == config@.profiles[i].0@);
            assert(entry_keys(config@.profiles)[j] == config@.profiles[j].0@);
        }
    } else {
        assert forall|j: int|
            0 <= j < config@.profiles.len() implies !all_attached(
            #[trigger] config@.profiles[j].1.screens@,
            heads,
        ) by {
            if all_attached(config@.profiles[j].1.screens@, heads) {
                lemma_first_connected_exists(config, heads, j);
            }
        }
    }
}

proof fn lemma_first_connected_exists(
    config: AppConfiguration,
    heads: Seq<MonitorInformationView>,
    j: int,
)
    requires
        0 <= j < config@.profiles.len(),
        all_attached(config@.profiles[j].1.screens@, heads),
    ensures
        exists|i: int| is_first_connected(config, heads, i),
    decreases j,
{
    if exists|k: int| 0 <= k < j && all_attached(config@.profiles[k].1.screens@, heads) {
        let k = choose|k: int| 0 <= k < j && all_attached(config@.profiles[k].1.screens@, heads);
        lemma_first_connected_exists(config, heads, k);
    } else {
        assert(is_first_connected(config, heads, j));
    }
}

/// With the profiles sorted by name, a name names at most one profile.
pub proof fn lemma_named_profile_unique(config: AppConfiguration, name: Seq<char>)
    requires
        app_configuration_wf(config@),
    ensures
        match named_profile(config, name) {
            Some(i) => forall|j: int|
                0 <= j < config@.profiles.len() && #[trigger] config@.profiles[j].0@ == name ==> j == i,
            None => forall|j: int|
                0 <= j < config@.profiles.len() ==> #[trigger] config@.profiles[j].0@ != name,
        },
{
    if exists|i: int| is_first_named(config, name, i) {
        let i = choose|i: int| is_first_named(config, name, i);
        assert forall|j: int|
            0 <= j < config@.profiles.len() && #[trigger] config@.profiles[j].0@ == name implies j
            == i by {
            assert(entry_keys(config@.profiles)[i] == name);
            assert(entry_keys(config@.profiles)[j] == name);
            if j != i {
                lemma_str_lt_order(name, name, name);
            }
        }
    } else {
        assert forall|j: int| 0 <= j < config@.profiles.len() implies #[trigger] config@.profiles[j].0@
            != name by {
            if config@.profiles[j].0@ == name {
                lemma_first_named_exists(config, name, j);
            }
        }
    }
}

proof fn lemma_first_named_exists(config: AppConfiguration, name: Seq<char>, j: int)
    requires
        0 <= j < config@.profiles.len(),
        config@.profiles[j].0@ == name,
    ensures
        exists|i: int| is_first_named(config, name, i),
    decreases j,
{
    if exists|k: int| 0 <= k < j && config@.profiles[k].0@ == name {
        let k = choose|k: int| 0 <= k < j && config@.profiles[k].0@ == name;
        lemma_first_named_exists(config, name, k);
    } else {
        assert(is_first_named(config, name, j));
    }
}

/// One round of the daemon keeps its DDC connections to attached monitors:
/// starting from the connections `before`, opening connections to some of
/// the candidates (`opened`, those whose display was found) gives
/// `recorded`, and after the monitors change to `heads` the connections
/// kept are to attached monitors, include every earlier connection whose
/// monitor is still attached and every connection just opened, and hold no
/// other monitor.
pub proof fn lemma_ddc_round(
    before: Seq<u64>,
    opened: Seq<(u64, Seq<char>)>,
    recorded: Seq<u64>,
    heads: Seq<MonitorInformationView>,
)
    requires
        forall|k: int| 0 <= k < opened.len() ==> ddc_candidates_spec(before, heads).contains(#[trigger] opened[k]),
        forall|id: u64|
            #[trigger] recorded.contains(id) <==> before.contains(id) || exists|k: int|
                0 <= k < opened.len() && opened[k].0 == id,
    ensures
        forall|id: u64|
            #[trigger] ids_by_presence(recorded, heads, true).contains(id) ==> has_head(heads, id),
        forall|id: u64|
            before.contains(id) && has_head(heads, id) ==> #[trigger] ids_by_presence(
                recorded,
                heads,
                true,
            ).contains(id),
        forall|k: int|
            0 <= k < opened.len() ==> ids_by_presence(recorded, heads, true).contains(
                #[trigger] opened[k].0,
            ),
        forall|id: u64|
            #[trigger] ids_by_presence(recorded, heads, true).contains(id) ==> before.contains(id)
                || exists|k: int| 0 <= k < opened.len() && opened[k].0 == id,
{
    assert forall|id: u64| #[trigger] ids_by_presence(recorded, heads, true).contains(id) implies before.contains(
        id,
    ) || exists|k: int| 0 <= k < opened.len() && opened[k].0 == id by {
        lemma_ids_by_presence(recorded, heads, id);
    }
    assert forall|id: u64| #[trigger] ids_by_presence(recorded, heads, true).contains(id) implies has_head(
        heads,
        id,
    ) by {
        lemma_ids_by_presence(recorded, heads, id);
    }
    assert forall|id: u64|
        before.contains(id) && has_head(heads, id) implies #[trigger] ids_by_presence(
        recorded,
        heads,
        true,
    ).contains(id) by {
        lemma_ids_by_presence(recorded, heads, id);
    }
    assert forall|k: int| 0 <= k < opened.len() implies ids_by_presence(recorded, heads, true).contains(
        #[trigger] opened[k].0,
    ) by {
        let id = opened[k].0;
        assert(ddc_candidates_spec(before, heads).contains(opened[k]));
        lemma_ddc_candidates(before, heads, id, opened[k].1);
        let j = choose|j: int|
            0 <= j < heads.len() && heads[j].id == id && heads[j].serial == Some(opened[k].1);
        assert(has_head(heads, id));
        assert(recorded.contains(id));
        lemma_ids_by_presence(recorded, heads, id);
    }
}

/// The first profile named `name`.
pub open spec fn named_profile(config: AppConfiguration, name: Seq<char>) -> Option<int> {
    if exists|i: int| is_first_named(config, name, i) {
        Some(choose|i: int| is_first_named(config, name, i))
    } else {
        None
    }
}

/// The line that shows the input source of a monitor.
pub open spec fn input_source_line_text(name: Seq<char>, source: MonitorInputSource) -> Seq<char> {
    name + ": "@ + source_text(source) + "\n"@
}

/// The line that shows the input source of the monitor `name`.
pub fn input_source_line(name: &str, source: MonitorInputSource) -> (line: String)
    ensures
        line@ == input_source_line_text(name@, source),
{
    let mut line = String::from_str(name);
    line.append(": ");
    push_source_text(&mut line, source);
    line.append("\n");
    line
}

impl DaemonState {
    /// Takes the new set of attached monitors: closes the DDC connections to
    /// monitors that are gone and remembers the monitors. Gives the closed
    /// connections.
    pub fn replace_monitors(&mut self, monitors: Vec<MonitorInformation>) -> (closed: Vec<u64>)
        ensures
            final(self).ddc_connections@ == ids_by_presence(
                old(self).ddc_connections@,
                configuration_view(monitors@),
                true,
            ),
            closed@ == ids_by_presence(
                old(self).ddc_connections@,
                configuration_view(monitors@),
                false,
            ),
            configuration_view(final(self).head_state@) == configuration_view(monitors@),
            forall|id: u64|
                #[trigger] final(self).ddc_connections@.contains(id) ==> has_head(
                    configuration_view(final(self).head_state@),
                    id,
                ),
            forall|id: u64|
                old(self).ddc_connections@.contains(id) && has_head(configuration_view(monitors@), id)
                    ==> #[trigger] final(self).ddc_connections@.contains(id),
            final(self).config == old(self).config,
            final(self).current_profile == old(self).current_profile,
    {
        let ghost mv = configuration_view(monitors@);
        let ghost old_ids = self.ddc_connections@;
        let mut kept: Vec<u64> = Vec::new();
        let mut closed: Vec<u64> = Vec::new();
        assert(old_ids.take(0) =~= Seq::<u64>::empty());
        for i in 0..self.ddc_connections.len()
            invariant
                old_ids == self.ddc_connections@,
                mv == configuration_view(monitors@),
                kept@ == ids_by_presence(old_ids.take(i as int), mv, true),
                closed@ == ids_by_presence(old_ids.take(i as int), mv, false),
        {
            let id = self.ddc_connections[i];
            assert(old_ids.take(i + 1).drop_last() =~= old_ids.take(i as int));
            assert(old_ids.take(i + 1).last() == id);
            if heads_have_id(&monitors, id) {
                kept.push(id);
            } else {
                closed.push(id);
            }
        }
        assert(old_ids.take(old_ids.len() as int) =~= old_ids);
        self.ddc_connections = kept;
        self.head_state = monitors;
        proof {
            assert forall|id: u64| #[trigger] self.ddc_connections@.contains(id) implies has_head(
                mv,
                id,
            ) by {
                lemma_ids_by_presence(old_ids, mv, id);
            }
            assert forall|id: u64|
                old_ids.contains(id) && has_head(mv, id) implies #[trigger] self.ddc_connections@.contains(
                id,
            ) by {
                lemma_ids_by_presence(old_ids, mv, id);
            }
        }
        closed
    }

    /// Takes the new set of attached monitors: closes the DDC connections to
    /// monitors that are gone, remembers the monitors and applies the first
    /// connected profile, if any.
    pub fn monitors_changed(&mut self, monitors: Vec<MonitorInformation>) -> (r: MonitorsChanged)
        requires
            match first_connected(old(self).config, configuration_view(monitors@)) {
                Some(i) => positions_acyclic(
                    old(self).config@.profiles[i].1.screens@,
                    configuration_view(monitors@),
                ),
                None => true,
            },
        ensures
            final(self).ddc_connections@ == ids_by_presence(
                old(self).ddc_connections@,
                configuration_view(monitors@),
                true,
            ),
            r.closed_ddc_connections@ == ids_by_presence(
                old(self).ddc_connections@,
                configuration_view(monitors@),
                false,
            ),
            configuration_view(final(self).head_state@) == configuration_view(monitors@),
            forall|id: u64|
                #[trigger] final(self).ddc_connections@.contains(id) ==> has_head(
                    configuration_view(final(self).head_state@),
                    id,
                ),
            forall|id: u64|
                old(self).ddc_connections@.contains(id) && has_head(configuration_view(monitors@), id)
                    ==> #[trigger] final(self).ddc_connections@.contains(id),
            final(self).config == old(self).config,
            match first_connected(old(self).config, configuration_view(monitors@)) {
                Some(i) => {
                    &&& r.applied is Some
                    &&& r.applied->0.name@ == old(self).config@.profiles[i].0@
                    &&& r.applied->0.display@ == tree_rendering(
                        layout_tree(
                            old(self).config@.profiles[i].1.screens@,
                            configuration_view(monitors@),
                        ),
                    )
                    &&& strings_view(r.applied->0.skripts@) == strings_view(
                        old(self).config@.profiles[i].1.skripts@,
                    )
                    &&& final(self).current_profile is Some
                    &&& final(self).current_profile->0@ == old(self).config@.profiles[i].0@
                    &&& forall|j: int|
                        0 <= j < old(self).config@.profiles.len() && j != i && all_attached(
                            #[trigger] old(self).config@.profiles[j].1.screens@,
                            configuration_view(monitors@),
                        ) ==> str_lt(old(self).config@.profiles[i].0@, old(self).config@.profiles[j].0@)
                },
                None => r.applied is None && final(self).current_profile == old(self).current_profile,
            },
    {
        let ghost mv = configuration_view(monitors@);
        let closed = self.replace_monitors(monitors);
        let mut applied: Option<AppliedProfile> = None;
        match self.config.first_connected_profile(&self.head_state) {
            Some(i) => {
                proof {
                    assert(is_first_connected(self.config, mv, i as int));
                    let k = choose|k: int| is_first_connected(self.config, mv, k);
                    if k < i {
                        assert(!all_attached(self.config@.profiles[k].1.screens@, mv));
                    } else if i < k {
                        assert(!all_attached(self.config@.profiles[i as int].1.screens@, mv));
                    }
                }
                let display = self.config.profiles()[i].1.apply(
                    &self.head_state,
                    self.config.hyprland_config_file().as_str(),
                );
                let skripts = clone_strings(&self.config.profiles()[i].1.skripts);
                let name = self.config.profiles()[i].0.clone();
                self.current_profile = Some(name.clone());
                applied = Some(AppliedProfile { name, display, skripts });
            },
            None => {
                assert(!exists|k: int| is_first_connected(self.config, mv, k));
            },
        }
        MonitorsChanged { closed_ddc_connections: closed, applied }
    }

    /// The report of the attached monitors.
    pub fn attached_report(&self) -> (text: String)
        ensures
            text@ == "Attached Monitors:\n"@ + attached_lines(configuration_view(self.head_state@)),
    {
        let mut text = String::from_str("Attached Monitors:\n");
        let ghost hv = configuration_view(self.head_state@);
        assert(hv.take(0) =~= Seq::<MonitorInformationView>::empty());
        for i in 0..self.head_state.len()
            invariant
                hv == configuration_view(self.head_state@),
                text@ == "Attached Monitors:\n"@ + attached_lines(hv.take(i as int)),
        {
            let head = &self.head_state[i];
            let ghost before = text@;
            text.append(head.name.as_str());
            text.append(": ");
            text.append(head.make.as_str());
            text.append(" ");
            match &head.serial {
                Some(serial) => text.append(serial.as_str()),
                None => {},
            }
            text.append("\n\n");
            assert(hv.take(i + 1).drop_last() =~= hv.take(i as int));
            assert(hv.take(i + 1).last() == head@);
            assert(text@ =~= before + attached_line(head@));
        }
        assert(hv.take(hv.len() as int) =~= hv);
        text
    }

    /// The report of the profile applied last.
    pub fn current_profile_report(&self) -> (text: String)
        ensures
            text@ == "Current Profile: "@ + match self.current_profile {
                Some(p) => p@,
                None => Seq::empty(),
            } + "\n"@,
    {
        let mut text = String::from_str("Current Profile: ");
        match &self.current_profile {
            Some(p) => text.append(p.as_str()),
            None => {},
        }
        text.append("\n");
        assert(text@ =~= "Current Profile: "@ + match self.current_profile {
            Some(p) => p@,
            None => Seq::empty(),
        } + "\n"@);
        text
    }

    /// Applies the profile `name` to the attached monitors and makes it the
    /// current profile; without such a profile, answers so and changes
    /// nothing.
    pub fn apply_profile(&mut self, name: &str) -> (r: ApplyOutcome)
        requires
            forall|i: int|
                0 <= i < old(self).config@.profiles.len() && old(self).config@.profiles[i].0@
                    == name@ ==> positions_acyclic(
                    #[trigger] old(self).config@.profiles[i].1.screens@,
                    configuration_view(old(self).head_state@),
                ),
        ensures
            final(self).config == old(self).config,
            final(self).head_state == old(self).head_state,
            final(self).ddc_connections == old(self).ddc_connections,
            match named_profile(old(self).config, name@) {
                Some(i) => {
                    &&& r matches ApplyOutcome::Applied { display, skripts } && display@
                        == tree_rendering(
                        layout_tree(
                            old(self).config@.profiles[i].1.screens@,
                            configuration_view(old(self).head_state@),
                        ),
                    ) && strings_view(skripts@) == strings_view(
                        old(self).config@.profiles[i].1.skripts@,
                    )
                    &&& final(self).current_profile is Some
                    &&& final(self).current_profile->0@ == name@
                    &&& forall|j: int|
                        0 <= j < old(self).config@.profiles.len() && j != i ==> #[trigger] old(
                            self,
                        ).config@.profiles[j].0@ != name@
                },
                None => {
                    &&& r matches ApplyOutcome::Unknown { reply } && reply@ == "No profile with name "@
                        + name@ + "!\n"@
                    &&& final(self).current_profile == old(self).current_profile
                },
            },
    {
        match self.config.profile_index(name) {
            Some(i) => {
                proof {
                    let c = self.config;
                    assert(is_first_named(c, name@, i as int));
                    let k = choose|k: int| is_first_named(c, name@, k);
                    if k < i {
                        assert(c@.profiles[k].0@ != name@);
                    } else if i < k {
                        assert(c@.profiles[i as int].0@ != name@);
                    }
                }
                let display = self.config.profiles()[i].1.apply(
                    &self.head_state,
                    self.config.hyprland_config_file().as_str(),
                );
                let skripts = clone_strings(&self.config.profiles()[i].1.skripts);
                self.current_profile = Some(String::from_str(name));
                ApplyOutcome::Applied { display, skripts }
            },
            None => {
                proof {
                    let c = self.config;
                    if exists|k: int| is_first_named(c, name@, k) {
                        let k = choose|k: int| is_first_named(c, name@, k);
                        assert(entry_keys(c@.profiles)[k] == name@);
                    }
                }
                let mut reply = String::from_str("No profile with name ");
                reply.append(name);
                reply.append("!\n");
                ApplyOutcome::Unknown { reply }
            },
        }
    }

    /// The attached monitor with id `id`, if any.
    pub fn head_by_id(&self, id: u64) -> (r: Option<&MonitorInformation>)
        ensures
            match r {
                Some(m) => exists|k: int|
                    is_first_head(configuration_view(self.head_state@), id, k) && m@
                        == configuration_view(self.head_state@)[k],
                None => !has_head(configuration_view(self.head_state@), id),
            },
    {
        let ghost hv = configuration_view(self.head_state@);
        for i in 0..self.head_state.len()
            invariant
                hv == configuration_view(self.head_state@),
                forall|j: int| 0 <= j < i ==> hv[j].id != id,
        {
            if self.head_state[i].id == id {
                assert(is_first_head(hv, id, i as int));
                return Some(&self.head_state[i]);
            }
        }
        None
    }
}


/// The first position whose serial number is `serial`.
pub fn first_with_serial(serials: &Vec<Option<String>>, serial: &str) -> (r: Option<usize>)
    ensures
        match r {
            Some(i) => i < serials@.len() && serials@[i as int] is Some && serials@[i as int]->0@
                == serial@ && forall|j: int|
                0 <= j < i ==> !(serials@[j] is Some && serials@[j]->0@ == serial@),
            None => forall|j: int|
                0 <= j < serials@.len() ==> !(serials@[j] is Some && serials@[j]->0@ == serial@),
        },
{
    for i in 0..serials.len()
        invariant
            forall|j: int| 0 <= j < i ==> !(serials@[j] is Some && serials@[j]->0@ == serial@),
    {
        match &serials[i] {
            Some(s) => {
                if crate::text::str_equal(s.as_str(), serial) {
                    return Some(i);
                }
            },
            None => {},
        }
    }
    None
}

} // verus!
