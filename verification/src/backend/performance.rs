//! The processor: what `/proc/cpuinfo` and cpufreq report, the power
//! profiles, and the commands that set a governor or apply a profile.

use vstd::prelude::*;
use crate::number::{decimal, decimal_chars, parse_u64, parse_unsigned};
use crate::text::{
    chars_of, concat_chars, lemma_lines_len, lines, pieces, split_chars, split_lines, split_words,
    starts_with, text_of, texts_of, trim_chars, trimmed, views, words, Sep,
};

verus! {

/// The processor, as the performance page shows it.
#[derive(Debug, Clone)]
pub struct CpuInfo {
    pub model: String,
    pub cores: u32,
    pub governor: String,
    pub available_governors: Vec<String>,
    pub frequency: String,
}

pub struct CpuView {
    pub model: Seq<char>,
    pub cores: nat,
    pub governor: Seq<char>,
    pub available_governors: Seq<Seq<char>>,
    pub frequency: Seq<char>,
}

pub open spec fn string_views(v: Seq<String>) -> Seq<Seq<char>> {
    v.map_values(|s: String| s@)
}

impl View for CpuInfo {
    type V = CpuView;

    open spec fn view(&self) -> CpuView {
        CpuView {
            model: self.model@,
            cores: self.cores as nat,
            governor: self.governor@,
            available_governors: string_views(self.available_governors@),
            frequency: self.frequency@,
        }
    }
}

/// The model name that a `model name` line gives: the text between its first
/// and second colon, without surrounding whitespace (empty without a colon).
pub open spec fn model_of_line(line: Seq<char>) -> Seq<char> {
    let p = pieces(line, Sep::Char(':'));
    if p.len() > 1 {
        trimmed(p[1])
    } else {
        Seq::empty()
    }
}

/// The model name of the last line that starts with `model name`; empty when none does.
pub open spec fn model_name(ls: Seq<Seq<char>>) -> Seq<char>
    decreases ls.len(),
{
    if ls.len() == 0 {
        Seq::empty()
    } else if "model name"@.is_prefix_of(ls.last()) {
        model_of_line(ls.last())
    } else {
        model_name(ls.drop_last())
    }
}

/// How many lines start with `tag`.
pub open spec fn count_prefixed(ls: Seq<Seq<char>>, tag: Seq<char>) -> nat
    decreases ls.len(),
{
    if ls.len() == 0 {
        0
    } else {
        count_prefixed(ls.drop_last(), tag) + if tag.is_prefix_of(ls.last()) {
            1nat
        } else {
            0nat
        }
    }
}

pub proof fn lemma_count_prefixed_len(ls: Seq<Seq<char>>, tag: Seq<char>)
    ensures
        count_prefixed(ls, tag) <= ls.len(),
    decreases ls.len(),
{
    if ls.len() > 0 {
        lemma_count_prefixed_len(ls.drop_last(), tag);
    }
}

/// The second `:`-separated field of a line, without surrounding whitespace;
/// empty when the line has no colon.
pub open spec fn second_field(line: Seq<char>) -> Seq<char> {
    if pieces(line, Sep::Char(':')).len() > 1 {
        trimmed(pieces(line, Sep::Char(':'))[1])
    } else {
        Seq::empty()
    }
}

/// The model comes from the last line that starts with `model name` (other
/// lines, such as one that starts with `model` alone, never set it), as that
/// line's second `:` field; with no such line it is empty.
pub proof fn law_model_from_last_model_name_line(ls: Seq<Seq<char>>)
    ensures
        (forall|j: int| 0 <= j < ls.len() ==> !"model name"@.is_prefix_of(#[trigger] ls[j])) ==> model_name(ls)
            == Seq::<char>::empty(),
        forall|j: int|
            0 <= j < ls.len() && "model name"@.is_prefix_of(#[trigger] ls[j]) && (forall|l: int|
                j < l < ls.len() ==> !"model name"@.is_prefix_of(ls[l])) ==> model_name(ls) == second_field(ls[j]),
    decreases ls.len(),
{
    if ls.len() > 0 {
        let prev = ls.drop_last();
        law_model_from_last_model_name_line(prev);
        let n = ls.len() - 1;
        if forall|j: int| 0 <= j < ls.len() ==> !"model name"@.is_prefix_of(#[trigger] ls[j]) {
            assert(!"model name"@.is_prefix_of(ls[n]));
            assert forall|j: int| 0 <= j < prev.len() implies !"model name"@.is_prefix_of(#[trigger] prev[j]) by {
                assert(prev[j] == ls[j]);
            }
        }
        assert forall|j: int|
            0 <= j < ls.len() && "model name"@.is_prefix_of(#[trigger] ls[j]) && (forall|l: int|
                j < l < ls.len() ==> !"model name"@.is_prefix_of(ls[l])) implies model_name(ls) == second_field(ls[j]) by {
            if j < n {
                assert(!"model name"@.is_prefix_of(ls[n]));
                assert(prev[j] == ls[j]);
                assert forall|l: int| j < l < prev.len() implies !"model name"@.is_prefix_of(prev[l]) by {
                    assert(prev[l] == ls[l]);
                }
                assert("model name"@.is_prefix_of(prev[j]));
            }
        }
    }
}

pub open spec fn starts_processor() -> spec_fn(Seq<char>) -> bool {
    |l: Seq<char>| "processor"@.is_prefix_of(l)
}

/// The core count is the number of lines that start with `processor`.
pub proof fn law_cores_count_processor_lines(ls: Seq<Seq<char>>)
    ensures
        count_prefixed(ls, "processor"@) == ls.filter(starts_processor()).len(),
    decreases ls.len(),
{
    reveal(Seq::filter);
    if ls.len() > 0 {
        law_cores_count_processor_lines(ls.drop_last());
    }
}

/// The current frequency in whole MHz, from the kHz that cpufreq reports;
/// `N/A` when the text is no number.
pub open spec fn frequency_text(cur_freq: Seq<char>) -> Seq<char> {
    match parse_unsigned(trimmed(cur_freq), u64::MAX as nat) {
        Some(f) => decimal(f / 1000) + " MHz"@,
        None => "N/A"@,
    }
}

/// The processor, from the text of `/proc/cpuinfo` and of cpu0's cpufreq
/// files `scaling_governor`, `scaling_available_governors` and
/// `scaling_cur_freq` (each empty when it could not be read): the cores are
/// the lines that start with `processor`.
pub open spec fn cpu_view(cpuinfo: Seq<char>, governor: Seq<char>, available: Seq<char>, cur_freq: Seq<char>) -> CpuView {
    CpuView {
        model: model_name(lines(cpuinfo)),
        cores: count_prefixed(lines(cpuinfo), "processor"@),
        governor: trimmed(governor),
        available_governors: words(available),
        frequency: frequency_text(cur_freq),
    }
}

fn model_from_line(line: &Vec<char>) -> (m: Vec<char>)
    ensures
        m@ == model_of_line(line@),
{
    let p = split_chars(line, Sep::Char(':'));
    if p.len() > 1 {
        proof {
            assert(views(p@)[1] == p@[1]@);
        }
        trim_chars(&p[1])
    } else {
        Vec::new()
    }
}

fn frequency_string(cur_freq: &str) -> (s: String)
    ensures
        s@ == frequency_text(cur_freq@),
{
    let t = trim_chars(&chars_of(cur_freq));
    match parse_u64(&t) {
        Some(f) => text_of(&concat_chars(&decimal_chars(f / 1000), &chars_of(" MHz"))),
        None => "N/A".to_owned(),
    }
}

/// The processor, from the text of `/proc/cpuinfo` and of cpu0's cpufreq
/// files (see [`cpu_view`]).
pub fn get_cpu_info(cpuinfo: &str, governor: &str, available: &str, cur_freq: &str) -> (info: CpuInfo)
    requires
        cpuinfo@.len() < u32::MAX,
    ensures
        info@ == cpu_view(cpuinfo@, governor@, available@, cur_freq@),
        forall|j: int|
            0 <= j < lines(cpuinfo@).len() && "model name"@.is_prefix_of(#[trigger] lines(cpuinfo@)[j])
                && (forall|l: int|
                j < l < lines(cpuinfo@).len() ==> !"model name"@.is_prefix_of(lines(cpuinfo@)[l]))
                ==> info.model@ == second_field(lines(cpuinfo@)[j]),
        (forall|j: int|
            0 <= j < lines(cpuinfo@).len() ==> !"model name"@.is_prefix_of(#[trigger] lines(cpuinfo@)[j]))
            ==> info.model@ == Seq::<char>::empty(),
        info.cores as nat == lines(cpuinfo@).filter(starts_processor()).len(),
{
    let ls = split_lines(&chars_of(cpuinfo));
    let model_tag = chars_of("model name");
    let processor_tag = chars_of("processor");
    let mut model: Vec<char> = Vec::new();
    let mut cores: u32 = 0;
    let mut i: usize = 0;
    proof {
        lemma_lines_len(cpuinfo@);
        assert(views(ls@).take(0) =~= Seq::<Seq<char>>::empty());
    }
    while i < ls.len()
        invariant
            i <= ls.len() <= u32::MAX,
            views(ls@) == lines(cpuinfo@),
            model_tag@ == "model name"@,
            processor_tag@ == "processor"@,
            model@ == model_name(views(ls@).take(i as int)),
            cores as nat == count_prefixed(views(ls@).take(i as int), "processor"@),
        decreases ls.len() - i,
    {
        proof {
            assert(views(ls@).take(i + 1).drop_last() =~= views(ls@).take(i as int));
            assert(views(ls@).take(i + 1).last() == ls@[i as int]@);
            lemma_count_prefixed_len(views(ls@).take(i as int), "processor"@);
        }
        if starts_with(&ls[i], &model_tag) {
            model = model_from_line(&ls[i]);
        }
        if starts_with(&ls[i], &processor_tag) {
            cores = cores + 1;
        }
        i += 1;
    }
    proof {
        assert(views(ls@).take(ls.len() as int) =~= views(ls@));
    }
    proof {
        law_model_from_last_model_name_line(lines(cpuinfo@));
        law_cores_count_processor_lines(lines(cpuinfo@));
    }
    let governors = texts_of(&split_words(&chars_of(available)));
    CpuInfo {
        model: text_of(&model),
        cores,
        governor: crate::text::trim(governor),
        available_governors: governors,
        frequency: frequency_string(cur_freq),
    }
}

/// The shell command that sets every processor's governor.
pub open spec fn governor_command_text(governor: Seq<char>) -> Seq<char> {
    "for cpu in /sys/devices/system/cpu/cpu*/cpufreq/scaling_governor; do echo "@ + governor
        + " > $cpu; done"@
}

pub fn governor_command(governor: &str) -> (cmd: String)
    ensures
        cmd@ == governor_command_text(governor@),
{
    let c = concat_chars(
        &concat_chars(
            &chars_of("for cpu in /sys/devices/system/cpu/cpu*/cpufreq/scaling_governor; do echo "),
            &chars_of(governor),
        ),
        &chars_of(" > $cpu; done"),
    );
    text_of(&c)
}

/// One setting of a power profile.
#[derive(Debug, Clone)]
pub struct PowerSetting {
    pub key: String,
    pub value: String,
    pub description: String,
}

pub struct SettingView {
    pub key: Seq<char>,
    pub value: Seq<char>,
    pub description: Seq<char>,
}

impl View for PowerSetting {
    type V = SettingView;

    open spec fn view(&self) -> SettingView {
        SettingView { key: self.key@, value: self.value@, description: self.description@ }
    }
}

/// A named set of settings that tune the machine for one purpose.
#[derive(Debug, Clone)]
pub struct PowerProfile {
    pub name: String,
    pub description: String,
    pub settings: Vec<PowerSetting>,
}

pub struct ProfileView {
    pub name: Seq<char>,
    pub description: Seq<char>,
    pub settings: Seq<SettingView>,
}

pub open spec fn setting_views(v: Seq<PowerSetting>) -> Seq<SettingView> {
    v.map_values(|s: PowerSetting| s@)
}

impl View for PowerProfile {
    type V = ProfileView;

    open spec fn view(&self) -> ProfileView {
        ProfileView {
            name: self.name@,
            description: self.description@,
            settings: setting_views(self.settings@),
        }
    }
}

pub open spec fn setting(key: &str, value: &str, description: &str) -> SettingView {
    SettingView { key: key@, value: value@, description: description@ }
}

/// The three power profiles, in the order the page offers them.
pub open spec fn power_profiles_spec() -> Seq<ProfileView> {
    seq![
        ProfileView {
            name: "Performance"@,
            description: "Максимальная производительность"@,
            settings: seq![
                setting("CPU Governor", "performance", "Полная производительность CPU"),
                setting("vm.swappiness", "10", "Меньше swap = больше RAM"),
                setting("CPU Boost", "enabled", "Автоматическое разгонка CPU"),
            ],
        },
        ProfileView {
            name: "Balanced"@,
            description: "Баланс между производительностью и батареей"@,
            settings: seq![
                setting("CPU Governor", "schedutil", "Динамическое управление частотой"),
                setting("vm.swappiness", "60", "Стандартное значение swap"),
                setting("CPU Boost", "enabled", "Boost при необходимости"),
            ],
        },
        ProfileView {
            name: "Powersave"@,
            description: "Максимальное время батареи"@,
            settings: seq![
                setting("CPU Governor", "powersave", "Минимальное энергопотребление"),
                setting("vm.swappiness", "80", "Больше swap для экономии RAM"),
                setting("CPU Boost", "disabled", "Отключить автоматический разгон"),
            ],
        },
    ]
}

fn make_setting(key: &str, value: &str, description: &str) -> (s: PowerSetting)
    ensures
        s@ == setting(key, value, description),
{
    PowerSetting { key: key.to_owned(), value: value.to_owned(), description: description.to_owned() }
}

fn make_profile(name: &str, description: &str, a: PowerSetting, b: PowerSetting, c: PowerSetting) -> (p: PowerProfile)
    ensures
        p@ == (ProfileView { name: name@, description: description@, settings: seq![a@, b@, c@] }),
{
    let mut settings: Vec<PowerSetting> = Vec::new();
    settings.push(a);
    settings.push(b);
    settings.push(c);
    let p = PowerProfile { name: name.to_owned(), description: description.to_owned(), settings };
    assert(p@.settings =~= seq![a@, b@, c@]);
    p
}

pub open spec fn profile_views(v: Seq<PowerProfile>) -> Seq<ProfileView> {
    v.map_values(|p: PowerProfile| p@)
}

/// The power profiles: Performance, Balanced and Powersave.
pub fn get_power_profiles() -> (out: Vec<PowerProfile>)
    ensures
        profile_views(out@) == power_profiles_spec(),
{
    let mut out: Vec<PowerProfile> = Vec::new();
    out.push(
        make_profile(
            "Performance",
            "Максимальная производительность",
            make_setting("CPU Governor", "performance", "Полная производительность CPU"),
            make_setting("vm.swappiness", "10", "Меньше swap = больше RAM"),
            make_setting("CPU Boost", "enabled", "Автоматическое разгонка CPU"),
        ),
    );
    out.push(
        make_profile(
            "Balanced",
            "Баланс между производительностью и батареей",
            make_setting("CPU Governor", "schedutil", "Динамическое управление частотой"),
            make_setting("vm.swappiness", "60", "Стандартное значение swap"),
            make_setting("CPU Boost", "enabled", "Boost при необходимости"),
        ),
    );
    out.push(
        make_profile(
            "Powersave",
            "Максимальное время батареи",
            make_setting("CPU Governor", "powersave", "Минимальное энергопотребление"),
            make_setting("vm.swappiness", "80", "Больше swap для экономии RAM"),
            make_setting("CPU Boost", "disabled", "Отключить автоматический разгон"),
        ),
    );
    assert(profile_views(out@) =~= power_profiles_spec());
    out
}

/// The arguments of the privileged command that one setting runs, when it
/// runs one: a governor is set for every processor, a swappiness through
/// `sysctl -w`, and boost is written to `/sys/devices/system/cpu/cpboost` as
/// `1` when its value is `enabled` and `0` otherwise; other keys run nothing.
pub open spec fn setting_command(s: SettingView) -> Option<Seq<Seq<char>>> {
    if s.key == "CPU Governor"@ {
        Some(seq!["sh"@, "-c"@, governor_command_text(s.value)])
    } else if s.key == "vm.swappiness"@ {
        Some(seq!["sysctl"@, "-w"@, "vm.swappiness="@ + s.value])
    } else if s.key == "CPU Boost"@ {
        let bit = if s.value == "enabled"@ {
            "1"@
        } else {
            "0"@
        };
        Some(seq!["sh"@, "-c"@, "echo "@ + bit + " > /sys/devices/system/cpu/cpboost"@])
    } else {
        None
    }
}

pub open spec fn command_builder() -> spec_fn(SettingView) -> Option<Seq<Seq<char>>> {
    |s: SettingView| setting_command(s)
}

/// The privileged commands that applying a profile runs, one per setting
/// that runs one, in the order of its settings.
pub open spec fn profile_commands(p: ProfileView) -> Seq<Seq<Seq<char>>> {
    p.settings.filter_map(command_builder())
}

/// Every setting of every built-in profile runs a command: applying one runs
/// exactly as many commands as it has settings.
pub proof fn law_builtin_profiles_run_every_setting()
    ensures
        forall|i: int|
            0 <= i < power_profiles_spec().len() ==> #[trigger] profile_commands(
                power_profiles_spec()[i],
            ).len() == power_profiles_spec()[i].settings.len(),
{
    reveal_with_fuel(Seq::filter_map, 4);
    assert forall|i: int| 0 <= i < power_profiles_spec().len() implies #[trigger] profile_commands(
        power_profiles_spec()[i],
    ).len() == power_profiles_spec()[i].settings.len() by {
        let st = power_profiles_spec()[i].settings;
        assert(st.drop_last().drop_last().drop_last() =~= Seq::<SettingView>::empty());
        assert(st.len() == 3);
        assert(setting_command(st[0]) is Some);
        assert(setting_command(st[1]) is Some);
        assert(setting_command(st[2]) is Some);
        assert(st.drop_last().last() == st[1]);
        assert(st.drop_last().drop_last().last() == st[0]);
    }
}

pub open spec fn command_views(v: Seq<Vec<String>>) -> Seq<Seq<Seq<char>>> {
    v.map_values(|c: Vec<String>| string_views(c@))
}

fn three(a: String, b: String, c: String) -> (v: Vec<String>)
    ensures
        string_views(v@) == seq![a@, b@, c@],
{
    let mut v: Vec<String> = Vec::new();
    v.push(a);
    v.push(b);
    v.push(c);
    assert(string_views(v@) =~= seq![a@, b@, c@]);
    v
}

fn command_for(s: &PowerSetting) -> (c: Option<Vec<String>>)
    ensures
        match c {
            Some(v) => setting_command(s@) == Some(string_views(v@)),
            None => setting_command(s@) is None,
        },
{
    if s.key == "CPU Governor".to_owned() {
        Some(three("sh".to_owned(), "-c".to_owned(), governor_command(s.value.as_str())))
    } else if s.key == "vm.swappiness".to_owned() {
        let arg = text_of(&concat_chars(&chars_of("vm.swappiness="), &chars_of(s.value.as_str())));
        Some(three("sysctl".to_owned(), "-w".to_owned(), arg))
    } else if s.key == "CPU Boost".to_owned() {
        let bit = if s.value == "enabled".to_owned() {
            chars_of("1")
        } else {
            chars_of("0")
        };
        let cmd = concat_chars(&concat_chars(&chars_of("echo "), &bit), &chars_of(" > /sys/devices/system/cpu/cpboost"));
        Some(three("sh".to_owned(), "-c".to_owned(), text_of(&cmd)))
    } else {
        None
    }
}

/// The privileged commands, as argument lists for `sudo`, that applying a
/// profile runs in order; the caller stops at the first that fails.
pub fn power_profile_commands(profile: &PowerProfile) -> (cmds: Vec<Vec<String>>)
    ensures
        command_views(cmds@) == profile_commands(profile@),
{
    let mut cmds: Vec<Vec<String>> = Vec::new();
    let mut i: usize = 0;
    let ghost sv = setting_views(profile.settings@);
    proof {
        assert(sv.take(0) =~= Seq::<SettingView>::empty());
    }
    while i < profile.settings.len()
        invariant
            i <= profile.settings.len(),
            sv == setting_views(profile.settings@),
            command_views(cmds@) == sv.take(i as int).filter_map(command_builder()),
        decreases profile.settings.len() - i,
    {
        let ghost before = cmds@;
        proof {
            sv.lemma_filter_map_take_succ(command_builder(), i as int);
        }
        match command_for(&profile.settings[i]) {
            Some(c) => {
                cmds.push(c);
                proof {
                    assert(command_views(cmds@) =~= command_views(before) + seq![string_views(cmds@.last()@)]);
                }
            },
            None => {},
        }
        i += 1;
    }
    proof {
        assert(sv.take(profile.settings.len() as int) =~= sv);
    }
    cmds
}

} // verus!
