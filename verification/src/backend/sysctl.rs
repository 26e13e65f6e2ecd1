//! Kernel parameters: the catalogue of common ones, and reading `sysctl`'s reports.

use vstd::prelude::*;
use crate::text::{
    chars_equal,
    chars_of, concat_chars, lines, split_lines, split_once, split_once_chars, text_of, trim_chars,
    trimmed, views,
};

verus! {

/// A kernel parameter with its current value and what the page says of it.
#[derive(Debug, Clone)]
pub struct SysctlParam {
    pub key: String,
    pub value: String,
    pub description: String,
    pub category: String,
    pub default: String,
}

/// One entry of the catalogue of common parameters.
pub struct CatalogEntry {
    pub key: Seq<char>,
    pub description: Seq<char>,
    pub category: Seq<char>,
    pub default: Seq<char>,
}

pub open spec fn entry(key: &str, description: &str, category: &str, default: &str) -> CatalogEntry {
    CatalogEntry { key: key@, description: description@, category: category@, default: default@ }
}

/// The common parameters that the kernel page offers, in the order it shows them.
pub open spec fn common_catalog() -> Seq<CatalogEntry> {
    seq![
        entry("vm.swappiness", "Склонность системы к использованию swap (0-200)", "Memory", "60"),
        entry("vm.dirty_ratio", "Процент ОЗУ для грязных страниц перед записью на диск", "Memory", "20"),
        entry("vm.dirty_background_ratio", "Процент ОЗУ для фоновой записи", "Memory", "10"),
        entry("vm.vfs_cache_pressure", "Давление на кэш файловой системы", "Memory", "100"),
        entry("net.core.rmem_max", "Максимальный размер буфера приема", "Network", "212992"),
        entry("net.core.wmem_max", "Максимальный размер буфера отправки", "Network", "212992"),
        entry("net.ipv4.tcp_fastopen", "Ускоренное соединение TCP", "Network", "1"),
        entry("net.ipv4.tcp_mtu_probing", "Автоматическое определение MTU", "Network", "0"),
        entry("kernel.sched_autogroup_enabled", "Автогруппировка процессов (для десктопа)", "Scheduler", "1"),
        entry("kernel.nmi_watchdog", "Watchdog для NMI (отключить для виртуалок)", "Scheduler", "1"),
    ]
}

/// `p` shows catalogue entry `e`, with the value `value`.
pub open spec fn shows_entry(p: SysctlParam, e: CatalogEntry, value: Seq<char>) -> bool {
    &&& p.key@ == e.key
    &&& p.description@ == e.description
    &&& p.category@ == e.category
    &&& p.default@ == e.default
    &&& p.value@ == value
}

fn make_entry(key: &str, description: &str, category: &str, default: &str) -> (p: SysctlParam)
    ensures
        shows_entry(p, entry(key, description, category, default), Seq::empty()),
{
    SysctlParam {
        key: key.to_owned(),
        value: String::new(),
        description: description.to_owned(),
        category: category.to_owned(),
        default: default.to_owned(),
    }
}

/// The catalogue of common parameters, with no value read yet.
pub fn common_params_catalog() -> (out: Vec<SysctlParam>)
    ensures
        out.len() == common_catalog().len(),
        forall|i: int|
            0 <= i < out.len() ==> shows_entry(#[trigger] out[i], common_catalog()[i], Seq::empty()),
{
    let mut out: Vec<SysctlParam> = Vec::new();
    out.push(make_entry("vm.swappiness", "Склонность системы к использованию swap (0-200)", "Memory", "60"));
    out.push(make_entry("vm.dirty_ratio", "Процент ОЗУ для грязных страниц перед записью на диск", "Memory", "20"));
    out.push(make_entry("vm.dirty_background_ratio", "Процент ОЗУ для фоновой записи", "Memory", "10"));
    out.push(make_entry("vm.vfs_cache_pressure", "Давление на кэш файловой системы", "Memory", "100"));
    out.push(make_entry("net.core.rmem_max", "Максимальный размер буфера приема", "Network", "212992"));
    out.push(make_entry("net.core.wmem_max", "Максимальный размер буфера отправки", "Network", "212992"));
    out.push(make_entry("net.ipv4.tcp_fastopen", "Ускоренное соединение TCP", "Network", "1"));
    out.push(make_entry("net.ipv4.tcp_mtu_probing", "Автоматическое определение MTU", "Network", "0"));
    out.push(make_entry("kernel.sched_autogroup_enabled", "Автогруппировка процессов (для десктопа)", "Scheduler", "1"));
    out.push(make_entry("kernel.nmi_watchdog", "Watchdog для NMI (отключить для виртуалок)", "Scheduler", "1"));
    out
}

/// The value a parameter shows after a read of its key: what was read, or
/// else its default.
pub open spec fn shown_value(read: Result<String, String>, default: Seq<char>) -> Seq<char> {
    match read {
        Ok(v) => v@,
        Err(_) => default,
    }
}

/// `params` are the common parameters, each with the value that `readings`
/// gives for it.
pub open spec fn are_common_params(params: Seq<SysctlParam>, readings: Seq<Result<String, String>>) -> bool {
    &&& params.len() == common_catalog().len()
    &&& forall|i: int|
        0 <= i < params.len() ==> shows_entry(
            #[trigger] params[i],
            common_catalog()[i],
            shown_value(readings[i], common_catalog()[i].default),
        )
}

/// A read that succeeded shows exactly the value read, whatever it is; only a
/// failed read shows the parameter's default.
pub proof fn law_read_value_shown(params: Seq<SysctlParam>, readings: Seq<Result<String, String>>)
    requires
        are_common_params(params, readings),
    ensures
        forall|i: int|
            0 <= i < params.len() ==> match #[trigger] readings[i] {
                Ok(v) => params[i].value@ == v@,
                Err(_) => params[i].value@ == common_catalog()[i].default && params[i].default@
                    == common_catalog()[i].default,
            },
{
    assert forall|i: int| 0 <= i < params.len() implies match #[trigger] readings[i] {
        Ok(v) => params[i].value@ == v@,
        Err(_) => params[i].value@ == common_catalog()[i].default && params[i].default@
            == common_catalog()[i].default,
    } by {
        assert(shows_entry(params[i], common_catalog()[i], shown_value(readings[i], common_catalog()[i].default)));
    }
}

/// The common parameters, each with the value that `readings` gives for it:
/// `readings[i]` is the outcome of reading the `i`-th catalogue key.
pub fn get_common_params(readings: &Vec<Result<String, String>>) -> (out: Vec<SysctlParam>)
    requires
        readings.len() == common_catalog().len(),
    ensures
        are_common_params(out@, readings@),
        forall|i: int|
            0 <= i < out.len() ==> match #[trigger] readings[i] {
                Ok(v) => out[i].value@ == v@,
                Err(_) => out[i].value@ == common_catalog()[i].default,
            },
{
    let mut params = common_params_catalog();
    let mut out: Vec<SysctlParam> = Vec::new();
    let mut i: usize = 0;
    while i < params.len()
        invariant
            i <= params.len() == readings.len() == common_catalog().len(),
            out.len() == i,
            forall|j: int|
                0 <= j < params.len() ==> shows_entry(#[trigger] params[j], common_catalog()[j], Seq::empty()),
            forall|j: int|
                0 <= j < i ==> shows_entry(
                    #[trigger] out[j],
                    common_catalog()[j],
                    shown_value(readings[j], common_catalog()[j].default),
                ),
        decreases params.len() - i,
    {
        let p = &params[i];
        let value = match &readings[i] {
            Ok(v) => v.clone(),
            Err(_) => p.default.clone(),
        };
        let q = SysctlParam {
            key: p.key.clone(),
            value,
            description: p.description.clone(),
            category: p.category.clone(),
            default: p.default.clone(),
        };
        out.push(q);
        i += 1;
    }
    proof {
        law_read_value_shown(out@, readings@);
    }
    out
}

/// What reading one parameter gives, from how `sysctl -n` ended: its output
/// without surrounding whitespace, or else the text of its error stream.
pub fn read_sysctl(success: bool, stdout: &str, stderr: &str) -> (r: Result<String, String>)
    ensures
        match r {
            Ok(v) => success && v@ == trimmed(stdout@),
            Err(e) => !success && e@ == stderr@,
        },
{
    if success {
        Ok(crate::text::trim(stdout))
    } else {
        Err(stderr.to_owned())
    }
}

/// The argument `sysctl -w` takes to set `key` to `value`.
pub fn sysctl_assignment(key: &str, value: &str) -> (arg: String)
    ensures
        arg@ == key@ + "="@ + value@,
{
    let k = chars_of(key);
    let eq = chars_of("=");
    let v = chars_of(value);
    let a = concat_chars(&concat_chars(&k, &eq), &v);
    text_of(&a)
}

/// The parameters that the lines of `sysctl -a` set: each line that holds
/// ` = ` gives the text before its first ` = ` as key and the text after it as
/// value, both without surrounding whitespace; a later line for a key replaces
/// an earlier one; other lines give nothing.
pub open spec fn params_map(ls: Seq<Seq<char>>) -> Map<Seq<char>, Seq<char>>
    decreases ls.len(),
{
    if ls.len() == 0 {
        Map::empty()
    } else {
        let m = params_map(ls.drop_last());
        match split_once(ls.last(), " = "@) {
            Some((k, v)) => m.insert(trimmed(k), trimmed(v)),
            None => m,
        }
    }
}

/// All parameters that `sysctl -a` reported; none when it failed.
pub open spec fn all_params(success: bool, stdout: Seq<char>) -> Map<Seq<char>, Seq<char>> {
    if success {
        params_map(lines(stdout))
    } else {
        Map::empty()
    }
}

/// The pairs `p` list exactly the entries of `m`, each key once.
pub open spec fn lists_map(p: Seq<(Seq<char>, Seq<char>)>, m: Map<Seq<char>, Seq<char>>) -> bool {
    &&& forall|j: int| 0 <= j < p.len() ==> #[trigger] m.contains_key(p[j].0) && m[p[j].0] == p[j].1
    &&& forall|k: Seq<char>| #[trigger] m.contains_key(k) ==> exists|j: int| 0 <= j < p.len() && p[j].0 == k
    &&& forall|j: int, l: int| 0 <= j < l < p.len() ==> p[j].0 != p[l].0
}

pub open spec fn char_pairs(p: Seq<(Vec<char>, Vec<char>)>) -> Seq<(Seq<char>, Seq<char>)> {
    p.map_values(|e: (Vec<char>, Vec<char>)| (e.0@, e.1@))
}

pub open spec fn text_pairs(p: Seq<(String, String)>) -> Seq<(Seq<char>, Seq<char>)> {
    p.map_values(|e: (String, String)| (e.0@, e.1@))
}

/// The key and value one line of `sysctl -a` sets, if it holds ` = `: the
/// text before its first ` = ` and the text after it, without surrounding
/// whitespace.
pub open spec fn line_setting(line: Seq<char>) -> Option<(Seq<char>, Seq<char>)> {
    match split_once(line, " = "@) {
        Some((k, v)) => Some((trimmed(k), trimmed(v))),
        None => None,
    }
}

/// Line `j` of `ls` sets `key`.
pub open spec fn sets_key(ls: Seq<Seq<char>>, j: int, key: Seq<char>) -> bool {
    &&& 0 <= j < ls.len()
    &&& line_setting(ls[j]) is Some
    &&& line_setting(ls[j]).unwrap().0 == key
}

/// Over any lines: every line that holds ` = ` (the first one included) sets
/// its key; a key takes the value of the last line that sets it; and every
/// key comes from some line that sets it.
pub proof fn law_params_map_lines(ls: Seq<Seq<char>>)
    ensures
        forall|j: int|
            0 <= j < ls.len() && #[trigger] line_setting(ls[j]) is Some ==> params_map(ls).contains_key(
                line_setting(ls[j]).unwrap().0,
            ),
        forall|j: int|
            0 <= j < ls.len() && #[trigger] line_setting(ls[j]) is Some && (forall|l: int|
                j < l < ls.len() ==> !sets_key(ls, l, line_setting(ls[j]).unwrap().0)) ==> params_map(
                ls,
            )[line_setting(ls[j]).unwrap().0] == line_setting(ls[j]).unwrap().1,
        forall|key: Seq<char>|
            #[trigger] params_map(ls).contains_key(key) ==> exists|j: int| sets_key(ls, j, key),
    decreases ls.len(),
{
    if ls.len() > 0 {
        let prev = ls.drop_last();
        law_params_map_lines(prev);
        let n = ls.len() - 1;
        let m = params_map(ls);
        let pm = params_map(prev);
        assert forall|j: int| 0 <= j < ls.len() && #[trigger] line_setting(ls[j]) is Some implies m.contains_key(
            line_setting(ls[j]).unwrap().0,
        ) by {
            if j < n {
                assert(ls[j] == prev[j]);
                assert(line_setting(prev[j]) is Some);
            }
        }
        assert forall|j: int|
            0 <= j < ls.len() && #[trigger] line_setting(ls[j]) is Some && (forall|l: int|
                j < l < ls.len() ==> !sets_key(ls, l, line_setting(ls[j]).unwrap().0)) implies m[line_setting(
            ls[j],
        ).unwrap().0] == line_setting(ls[j]).unwrap().1 by {
            if j < n {
                assert(ls[j] == prev[j]);
                assert(!sets_key(ls, n, line_setting(ls[j]).unwrap().0));
                assert forall|l: int| j < l < prev.len() implies !sets_key(prev, l, line_setting(prev[j]).unwrap().0) by {
                    assert(!sets_key(ls, l, line_setting(ls[j]).unwrap().0));
                    assert(prev[l] == ls[l]);
                }
                assert(line_setting(prev[j]) is Some);
            }
        }
        assert forall|key: Seq<char>| #[trigger] m.contains_key(key) implies exists|j: int| sets_key(ls, j, key) by {
            if line_setting(ls[n]) is Some && line_setting(ls[n]).unwrap().0 == key {
                assert(sets_key(ls, n, key));
            } else {
                assert(pm.contains_key(key));
                let j = choose|j: int| sets_key(prev, j, key);
                assert(prev[j] == ls[j]);
                assert(sets_key(ls, j, key));
            }
        }
    }
}

/// The parameters that `sysctl -a` reported, from how it ended and what it
/// wrote: each key once, with the value of the last line that set it.
pub fn get_all_params(success: bool, stdout: &str) -> (out: Vec<(String, String)>)
    ensures
        lists_map(text_pairs(out@), all_params(success, stdout@)),
        !success ==> out.len() == 0,
        success ==> forall|j: int|
            0 <= j < lines(stdout@).len() && #[trigger] line_setting(lines(stdout@)[j]) is Some
                ==> exists|i: int|
                0 <= i < out.len() && out[i].0@ == line_setting(lines(stdout@)[j]).unwrap().0,
        success ==> forall|j: int, i: int|
            0 <= j < lines(stdout@).len() && #[trigger] line_setting(lines(stdout@)[j]) is Some && (forall|
                l: int,
            |
                j < l < lines(stdout@).len() ==> !sets_key(
                    lines(stdout@),
                    l,
                    line_setting(lines(stdout@)[j]).unwrap().0,
                )) && 0 <= i < out.len() && #[trigger] out[i].0@ == line_setting(
                lines(stdout@)[j],
            ).unwrap().0 ==> out[i].1@ == line_setting(lines(stdout@)[j]).unwrap().1,
{
    let mut pairs: Vec<(Vec<char>, Vec<char>)> = Vec::new();
    if success {
        let text = chars_of(stdout);
        let ls = split_lines(&text);
        let sep = chars_of(" = ");
        let mut i: usize = 0;
        proof {
            assert(views(ls@).take(0) =~= Seq::<Seq<char>>::empty());
        }
        while i < ls.len()
            invariant
                i <= ls.len(),
                views(ls@) == lines(stdout@),
                sep@ == " = "@,
                lists_map(char_pairs(pairs@), params_map(views(ls@).take(i as int))),
            decreases ls.len() - i,
        {
            let ghost prev = char_pairs(pairs@);
            let ghost m = params_map(views(ls@).take(i as int));
            proof {
                assert(views(ls@).take(i + 1).drop_last() =~= views(ls@).take(i as int));
                assert(views(ls@).take(i + 1).last() == ls@[i as int]@);
            }
            match split_once_chars(&ls[i], &sep) {
                Some((k, v)) => {
                    let key = trim_chars(&k);
                    let value = trim_chars(&v);
                    let ghost m2 = m.insert(key@, value@);
                    let mut found: Option<usize> = None;
                    let mut j: usize = 0;
                    while j < pairs.len()
                        invariant
                            j <= pairs.len(),
                            char_pairs(pairs@) == prev,
                            found is None ==> forall|l: int| 0 <= l < j ==> prev[l].0 != key@,
                            found matches Some(f) ==> f < pairs.len() && prev[f as int].0 == key@,
                        decreases pairs.len() - j,
                    {
                        if found.is_none() && chars_equal(&pairs[j].0, &key) {
                            found = Some(j);
                        }
                        j += 1;
                    }
                    match found {
                        Some(f) => {
                            pairs.set(f, (key, value));
                            proof {
                                let now = char_pairs(pairs@);
                                assert(now =~= prev.update(f as int, (key@, value@)));
                                assert forall|kk: Seq<char>| #[trigger] m2.contains_key(kk) implies exists|l: int| 0 <= l < now.len() && now[l].0 == kk by {
                                    if kk != key@ {
                                        let l = choose|l: int| 0 <= l < prev.len() && prev[l].0 == kk;
                                        assert(now[l].0 == kk);
                                    } else {
                                        assert(now[f as int].0 == kk);
                                    }
                                }
                            }
                        },
                        None => {
                            let ghost kv = (key@, value@);
                            pairs.push((key, value));
                            proof {
                                let now = char_pairs(pairs@);
                                assert(now =~= prev.push(kv));
                                assert forall|kk: Seq<char>| #[trigger] m2.contains_key(kk) implies exists|l: int| 0 <= l < now.len() && now[l].0 == kk by {
                                    if kk != key@ {
                                        let l = choose|l: int| 0 <= l < prev.len() && prev[l].0 == kk;
                                        assert(now[l].0 == kk);
                                    } else {
                                        assert(now[prev.len() as int].0 == kk);
                                    }
                                }
                            }
                        },
                    }
                },
                None => {},
            }
            i += 1;
        }
        proof {
            assert(views(ls@).take(ls.len() as int) =~= views(ls@));
        }
    }
    let mut out: Vec<(String, String)> = Vec::new();
    let mut i: usize = 0;
    while i < pairs.len()
        invariant
            i <= pairs.len(),
            text_pairs(out@) == char_pairs(pairs@).take(i as int),
        decreases pairs.len() - i,
    {
        let ghost before = out@;
        let k = text_of(&pairs[i].0);
        let v = text_of(&pairs[i].1);
        let ghost kv = (k@, v@);
        out.push((k, v));
        proof {
            assert(out@ == before.push(out@.last()));
            assert(text_pairs(out@) =~= text_pairs(before).push(kv));
            assert(char_pairs(pairs@).take(i + 1) =~= char_pairs(pairs@).take(i as int).push(kv));
        }
        i += 1;
    }
    proof {
        assert(char_pairs(pairs@).take(pairs.len() as int) =~= char_pairs(pairs@));
        if success {
            law_params_map_lines(lines(stdout@));
            let m = all_params(success, stdout@);
            let tp = text_pairs(out@);
            assert forall|j: int|
                0 <= j < lines(stdout@).len() && #[trigger] line_setting(lines(stdout@)[j]) is Some
                    implies exists|i: int|
                    0 <= i < out.len() && out[i].0@ == line_setting(lines(stdout@)[j]).unwrap().0 by {
                let key = line_setting(lines(stdout@)[j]).unwrap().0;
                assert(m.contains_key(key));
                let i = choose|i: int| 0 <= i < tp.len() && tp[i].0 == key;
                assert(tp[i].0 == out@[i].0@);
            }
            assert forall|j: int, i: int|
                0 <= j < lines(stdout@).len() && #[trigger] line_setting(lines(stdout@)[j]) is Some && (forall|
                    l: int,
                |
                    j < l < lines(stdout@).len() ==> !sets_key(
                        lines(stdout@),
                        l,
                        line_setting(lines(stdout@)[j]).unwrap().0,
                    )) && 0 <= i < out.len() && #[trigger] out[i].0@ == line_setting(
                    lines(stdout@)[j],
                ).unwrap().0 implies out[i].1@ == line_setting(lines(stdout@)[j]).unwrap().1 by {
                assert(tp[i].0 == out@[i].0@ && tp[i].1 == out@[i].1@);
                assert(m.contains_key(tp[i].0));
            }
        } else {
            assert(all_params(success, stdout@) =~= Map::empty());
            if out.len() > 0 {
                assert(all_params(success, stdout@).contains_key(text_pairs(out@)[0].0));
            }
        }
    }
    out
}

} // verus!
