//! Deterministic preflight of `depbot`: manifests at the workspace root →
//! required programs → allowlist ∩ PATH, and the texts that report it.
use vstd::prelude::*;

use crate::text::{contains_text, ends_with, has_suffix, join, join_spec, lower_seq, opt_or, opt_str, str_eq, trimmed, views};
use crate::wire::{copy_strings, DoctorIssue, DoctorReport, EcosystemNeed, ToolsFile};
use crate::depbot_config::ConfigError;

verus! {

/// Which files the workspace root holds.
#[derive(Clone, Copy, Debug, PartialEq, Default)]
pub struct WorkspaceProbe {
    pub go_mod: bool,
    pub package_json: bool,
    pub pnpm_lock: bool,
    pub yarn_lock: bool,
    pub cargo_toml: bool,
    pub module_bazel: bool,
    /// `rust.MODULE.bazel`, or any other `*.MODULE.bazel` file.
    pub rust_module_bazel: bool,
    pub buf_yaml: bool,
}

/// An ecosystem, the file that shows it, and the programs it needs.
pub type NeedView = (Seq<char>, Seq<char>, Seq<Seq<char>>);

pub open spec fn need_view(n: EcosystemNeed) -> NeedView {
    (opt_or(n.ecosystem, ""@), opt_or(n.evidence_path, ""@), views(n.required_programs@))
}

pub open spec fn needs_view(s: Seq<EcosystemNeed>) -> Seq<NeedView> {
    s.map_values(|n: EcosystemNeed| need_view(n))
}

/// The ecosystems found at the root, ordered by name: bazel (`MODULE.bazel`,
/// else a `*.MODULE.bazel`), buf, cargo, go, npm (whose package manager follows
/// the lock file: pnpm, then yarn, else npm).
pub open spec fn detected_needs(p: WorkspaceProbe) -> Seq<NeedView> {
    let bazel: Seq<NeedView> = if p.module_bazel || p.rust_module_bazel {
        seq![(
            "bazel"@,
            if p.module_bazel {
                "MODULE.bazel"@
            } else {
                "rust.MODULE.bazel"@
            },
            seq!["bazel"@],
        )]
    } else {
        Seq::empty()
    };
    let buf: Seq<NeedView> = if p.buf_yaml {
        seq![("buf"@, "buf.yaml"@, seq!["buf"@])]
    } else {
        Seq::empty()
    };
    let cargo: Seq<NeedView> = if p.cargo_toml {
        seq![("cargo"@, "Cargo.toml"@, seq!["cargo"@])]
    } else {
        Seq::empty()
    };
    let go: Seq<NeedView> = if p.go_mod {
        seq![("go"@, "go.mod"@, seq!["go"@])]
    } else {
        Seq::empty()
    };
    let pm = if p.pnpm_lock {
        "pnpm"@
    } else if p.yarn_lock {
        "yarn"@
    } else {
        "npm"@
    };
    let npm: Seq<NeedView> = if p.package_json {
        seq![("npm"@, "package.json"@, seq![pm])]
    } else {
        Seq::empty()
    };
    bazel + buf + cargo + go + npm
}

fn need(ecosystem: &str, evidence: &str, program: &str) -> (r: EcosystemNeed)
    ensures
        need_view(r) == (ecosystem@, evidence@, seq![program@]),
        r.ecosystem is Some,
        r.evidence_path is Some,
{
    let mut programs: Vec<String> = Vec::new();
    programs.push(String::from_str(program));
    assert(views(programs@) =~= seq![program@]);
    EcosystemNeed {
        ecosystem: Some(String::from_str(ecosystem)),
        evidence_path: Some(String::from_str(evidence)),
        required_programs: programs,
    }
}

fn push_need(v: &mut Vec<EcosystemNeed>, n: EcosystemNeed)
    ensures
        needs_view(final(v)@) == needs_view(old(v)@).push(need_view(n)),
        final(v)@ == old(v)@.push(n),
{
    v.push(n);
    assert(needs_view(v@) =~= needs_view(old(v)@).push(need_view(n)));
}

/// The package manager that an npm workspace uses: pnpm when it holds
/// `pnpm-lock.yaml`, else yarn when it holds `yarn.lock`, else npm.
pub open spec fn npm_manager(p: WorkspaceProbe) -> Seq<char> {
    if p.pnpm_lock {
        "pnpm"@
    } else if p.yarn_lock {
        "yarn"@
    } else {
        "npm"@
    }
}

proof fn lemma_ecosystem_names_distinct()
    ensures
        "bazel"@ != "buf"@,
        "bazel"@ != "cargo"@,
        "bazel"@ != "go"@,
        "bazel"@ != "npm"@,
        "buf"@ != "cargo"@,
        "buf"@ != "go"@,
        "buf"@ != "npm"@,
        "cargo"@ != "go"@,
        "cargo"@ != "npm"@,
        "go"@ != "npm"@,
{
    reveal_strlit("bazel");
    reveal_strlit("buf");
    reveal_strlit("cargo");
    reveal_strlit("go");
    reveal_strlit("npm");
    assert("bazel"@[1] != "buf"@[1]);
    assert("bazel"@[0] != "cargo"@[0]);
    assert("bazel"@[0] != "go"@[0]);
    assert("bazel"@[0] != "npm"@[0]);
    assert("buf"@[0] != "cargo"@[0]);
    assert("buf"@[0] != "go"@[0]);
    assert("buf"@[0] != "npm"@[0]);
    assert("cargo"@[0] != "go"@[0]);
    assert("cargo"@[0] != "npm"@[0]);
    assert("go"@[0] != "npm"@[0]);
}

/// The five parts of `detected_needs`, one per ecosystem, each empty or one need.
spec fn bazel_part(p: WorkspaceProbe) -> Seq<NeedView> {
    if p.module_bazel || p.rust_module_bazel {
        seq![("bazel"@, if p.module_bazel { "MODULE.bazel"@ } else { "rust.MODULE.bazel"@ }, seq!["bazel"@])]
    } else {
        Seq::empty()
    }
}

spec fn buf_part(p: WorkspaceProbe) -> Seq<NeedView> {
    if p.buf_yaml { seq![("buf"@, "buf.yaml"@, seq!["buf"@])] } else { Seq::empty() }
}

spec fn cargo_part(p: WorkspaceProbe) -> Seq<NeedView> {
    if p.cargo_toml { seq![("cargo"@, "Cargo.toml"@, seq!["cargo"@])] } else { Seq::empty() }
}

spec fn go_part(p: WorkspaceProbe) -> Seq<NeedView> {
    if p.go_mod { seq![("go"@, "go.mod"@, seq!["go"@])] } else { Seq::empty() }
}

spec fn npm_part(p: WorkspaceProbe) -> Seq<NeedView> {
    if p.package_json { seq![("npm"@, "package.json"@, seq![npm_manager(p)])] } else { Seq::empty() }
}

proof fn lemma_detected_parts(p: WorkspaceProbe)
    ensures
        detected_needs(p) == bazel_part(p) + buf_part(p) + cargo_part(p) + go_part(p) + npm_part(p),
{
    assert(detected_needs(p) =~= bazel_part(p) + buf_part(p) + cargo_part(p) + go_part(p) + npm_part(p));
}

/// Each manifest at the root yields exactly its ecosystem's need: `go.mod` →
/// go, `Cargo.toml` → cargo, `buf.yaml` → buf, `MODULE.bazel` or a
/// `*.MODULE.bazel` → bazel (its evidence the former when present), and
/// `package.json` → npm, whose program is pnpm whenever `pnpm-lock.yaml` is
/// there (whatever else is), else yarn with `yarn.lock`, else npm. The npm
/// need, when there is one, comes last.
pub proof fn lemma_detected_ecosystems(p: WorkspaceProbe)
    ensures
        p.go_mod <==> detected_needs(p).contains(("go"@, "go.mod"@, seq!["go"@])),
        p.cargo_toml <==> detected_needs(p).contains(("cargo"@, "Cargo.toml"@, seq!["cargo"@])),
        p.buf_yaml <==> detected_needs(p).contains(("buf"@, "buf.yaml"@, seq!["buf"@])),
        p.module_bazel ==> detected_needs(p).contains(("bazel"@, "MODULE.bazel"@, seq!["bazel"@])),
        !p.module_bazel && p.rust_module_bazel ==> detected_needs(p).contains(
            ("bazel"@, "rust.MODULE.bazel"@, seq!["bazel"@]),
        ),
        p.package_json <==> detected_needs(p).contains(("npm"@, "package.json"@, seq![npm_manager(p)])),
        p.package_json ==> detected_needs(p).last() == ("npm"@, "package.json"@, seq![npm_manager(p)]),
        p.package_json && p.pnpm_lock ==> detected_needs(p).last() == ("npm"@, "package.json"@, seq!["pnpm"@]),
        p.package_json && !p.pnpm_lock && p.yarn_lock ==> detected_needs(p).last().2 == seq!["yarn"@],
        p.package_json && !p.pnpm_lock && !p.yarn_lock ==> detected_needs(p).last().2 == seq!["npm"@],
        !p.package_json ==> forall|i: int|
            0 <= i < detected_needs(p).len() ==> (#[trigger] detected_needs(p)[i]).0 != "npm"@,
{
    lemma_detected_parts(p);
    let d = detected_needs(p);
    let (sb, sf, sc, sg, sn) = (bazel_part(p), buf_part(p), cargo_part(p), go_part(p), npm_part(p));
    if p.go_mod {
        assert(d[(sb.len() + sf.len() + sc.len()) as int] == sg[0]);
    }
    if p.cargo_toml {
        assert(d[(sb.len() + sf.len()) as int] == sc[0]);
    }
    if p.buf_yaml {
        assert(d[sb.len() as int] == sf[0]);
    }
    if p.module_bazel || p.rust_module_bazel {
        assert(d[0] == sb[0]);
    }
    if p.package_json {
        assert(d[(sb.len() + sf.len() + sc.len() + sg.len()) as int] == sn[0]);
    }
    let go = ("go"@, "go.mod"@, seq!["go"@]);
    let cargo = ("cargo"@, "Cargo.toml"@, seq!["cargo"@]);
    let buf = ("buf"@, "buf.yaml"@, seq!["buf"@]);
    let npm = ("npm"@, "package.json"@, seq![npm_manager(p)]);
    if d.contains(go) {
        assert(p.go_mod) by {
            lemma_ecosystem_names_distinct();
            lemma_detected_ecosystems_only(p);
            let i = choose|i: int| 0 <= i < d.len() && d[i] == go;
            assert(d[i].0 == "go"@);
        }
    }
    if d.contains(cargo) {
        assert(p.cargo_toml) by {
            lemma_ecosystem_names_distinct();
            lemma_detected_ecosystems_only(p);
            let i = choose|i: int| 0 <= i < d.len() && d[i] == cargo;
            assert(d[i].0 == "cargo"@);
        }
    }
    if d.contains(buf) {
        assert(p.buf_yaml) by {
            lemma_ecosystem_names_distinct();
            lemma_detected_ecosystems_only(p);
            let i = choose|i: int| 0 <= i < d.len() && d[i] == buf;
            assert(d[i].0 == "buf"@);
        }
    }
    if !p.package_json {
        assert forall|i: int| 0 <= i < d.len() implies (#[trigger] d[i]).0 != "npm"@ by {
            lemma_ecosystem_names_distinct();
            lemma_detected_ecosystems_only(p);
        }
    }
    if d.contains(npm) {
        let i = choose|i: int| 0 <= i < d.len() && d[i] == npm;
        assert(d[i].0 == "npm"@);
    }
}

/// Nothing is detected without its manifest, and each ecosystem appears at
/// most once.
pub proof fn lemma_detected_ecosystems_only(p: WorkspaceProbe)
    ensures
        forall|i: int|
            0 <= i < detected_needs(p).len() ==> {
                let e = (#[trigger] detected_needs(p)[i]).0;
                ||| (e == "go"@ && p.go_mod)
                ||| (e == "cargo"@ && p.cargo_toml)
                ||| (e == "buf"@ && p.buf_yaml)
                ||| (e == "bazel"@ && (p.module_bazel || p.rust_module_bazel))
                ||| (e == "npm"@ && p.package_json)
            },
        forall|i: int, j: int|
            0 <= i < j < detected_needs(p).len() ==> (#[trigger] detected_needs(p)[i]).0 != (
            #[trigger] detected_needs(p)[j]).0,
{
    lemma_ecosystem_names_distinct();
    lemma_detected_parts(p);
    let d = detected_needs(p);
    let (sb, sf, sc, sg, sn) = (bazel_part(p), buf_part(p), cargo_part(p), go_part(p), npm_part(p));
    let a = sb.len() as int;
    let b = a + sf.len();
    let c = b + sc.len();
    let g = c + sg.len();
    assert forall|i: int| 0 <= i < d.len() implies (i < a ==> d[i] == sb[i]) && (a <= i < b ==> d[i] == sf[i - a])
        && (b <= i < c ==> d[i] == sc[i - b]) && (c <= i < g ==> d[i] == sg[i - c]) && (g <= i ==> d[i] == sn[i - g]) by {
    }
}

/// Whether a file name is a Bazel module file of the `*.MODULE.bazel` kind.
pub fn is_module_bazel_name(name: &str) -> (r: bool)
    ensures
        r == has_suffix(name@, ".MODULE.bazel"@),
{
    ends_with(name, ".MODULE.bazel")
}

/// The file name tried for `program` with the executable extension `ext`:
/// the program itself when it already ends in `ext` (compared
/// case-insensitively), else the program followed by `ext`.
pub fn candidate_name(program: &str, ext: &str) -> (r: String)
    ensures
        has_suffix(lower_seq(program@), ext@) ==> r@ == program@,
        !has_suffix(lower_seq(program@), ext@) ==> r@ == program@ + ext@,
{
    let lower = program.to_ascii_lowercase();
    let mut name = String::from_str(program);
    if !ends_with(lower.as_str(), ext) {
        name.append(ext);
    }
    name
}

/// The ecosystems whose manifests the root holds.
pub fn detect_ecosystem_needs(probe: &WorkspaceProbe) -> (r: Vec<EcosystemNeed>)
    ensures
        needs_view(r@) == detected_needs(*probe),
        forall|i: int| 0 <= i < r@.len() ==> (#[trigger] r@[i]).ecosystem is Some && r@[i].evidence_path is Some,
        probe.package_json ==> needs_view(r@).contains(("npm"@, "package.json"@, seq![npm_manager(*probe)])),
        probe.package_json && probe.pnpm_lock ==> needs_view(r@).contains(("npm"@, "package.json"@, seq!["pnpm"@])),
        !probe.package_json ==> forall|i: int| 0 <= i < r@.len() ==> (#[trigger] needs_view(r@)[i]).0 != "npm"@,
{
    let mut v: Vec<EcosystemNeed> = Vec::new();
    if probe.module_bazel || probe.rust_module_bazel {
        let evidence = if probe.module_bazel {
            "MODULE.bazel"
        } else {
            "rust.MODULE.bazel"
        };
        push_need(&mut v, need("bazel", evidence, "bazel"));
    }
    if probe.buf_yaml {
        push_need(&mut v, need("buf", "buf.yaml", "buf"));
    }
    if probe.cargo_toml {
        push_need(&mut v, need("cargo", "Cargo.toml", "cargo"));
    }
    if probe.go_mod {
        push_need(&mut v, need("go", "go.mod", "go"));
    }
    if probe.package_json {
        let pm = if probe.pnpm_lock {
            "pnpm"
        } else if probe.yarn_lock {
            "yarn"
        } else {
            "npm"
        };
        push_need(&mut v, need("npm", "package.json", pm));
    }
    assert(needs_view(v@) =~= detected_needs(*probe));
    proof {
        lemma_detected_ecosystems(*probe);
    }
    v
}

/// The programs that the tools file allows: trimmed, non-blank, lower-cased.
pub open spec fn allowed(tools: ToolsFile, name: Seq<char>) -> bool {
    tools.shell matches Some(shell) && exists|i: int|
        0 <= i < shell.allowed_programs@.len() && trimmed(#[trigger] shell.allowed_programs@[i]@).len() > 0
            && lower_seq(trimmed(shell.allowed_programs@[i]@)) == name
}

/// Some entry among the first `k` allowed programs reads `name` once trimmed and lower-cased.
pub open spec fn allowed_upto(programs: Seq<String>, k: int, name: Seq<char>) -> bool {
    exists|j: int|
        0 <= j < k && trimmed(#[trigger] programs[j]@).len() > 0 && lower_seq(trimmed(programs[j]@)) == name
}

fn allowlist_from_tools(tools: &ToolsFile) -> (r: Vec<String>)
    ensures
        forall|name: Seq<char>| views(r@).contains(name) <==> allowed(*tools, name),
{
    let mut out: Vec<String> = Vec::new();
    match &tools.shell {
        Some(shell) => {
            let ghost progs = shell.allowed_programs@;
            let n = shell.allowed_programs.len();
            let mut i: usize = 0;
            while i < n
                invariant
                    n == progs.len(),
                    progs == shell.allowed_programs@,
                    i <= n,
                    forall|name: Seq<char>| views(out@).contains(name) <==> allowed_upto(progs, i as int, name),
                decreases n - i,
            {
                let t = shell.allowed_programs[i].as_str().trim();
                let ghost before = views(out@);
                if !t.is_empty() {
                    out.push(t.to_ascii_lowercase());
                }
                proof {
                    let low = lower_seq(t@);
                    if t@.len() > 0 {
                        assert(views(out@) =~= before.push(low));
                    } else {
                        assert(views(out@) =~= before);
                    }
                    assert forall|name: Seq<char>| views(out@).contains(name) <==> allowed_upto(
                        progs,
                        i + 1,
                        name,
                    ) by {
                        assert(before.contains(name) <==> allowed_upto(progs, i as int, name));
                        if views(out@).contains(name) {
                            let k = choose|k: int| 0 <= k < views(out@).len() && views(out@)[k] == name;
                            if k < before.len() {
                                assert(before[k] == name);
                                assert(before.contains(name));
                                let j = choose|j: int|
                                    0 <= j < i && trimmed(#[trigger] progs[j]@).len() > 0 && lower_seq(
                                        trimmed(progs[j]@),
                                    ) == name;
                                assert(0 <= j < i + 1);
                            } else {
                                assert(trimmed(progs[i as int]@).len() > 0 && lower_seq(trimmed(progs[i as int]@)) == name);
                            }
                        }
                        if allowed_upto(progs, i + 1, name) {
                            let j = choose|j: int|
                                0 <= j < i + 1 && trimmed(#[trigger] progs[j]@).len() > 0 && lower_seq(
                                    trimmed(progs[j]@),
                                ) == name;
                            if j < i {
                                assert(allowed_upto(progs, i as int, name));
                                let k = choose|k: int| 0 <= k < before.len() && before[k] == name;
                                assert(views(out@)[k] == name);
                            } else {
                                assert(views(out@)[before.len() as int] == name);
                            }
                        }
                    }
                }
                i += 1;
            }
            assert forall|name: Seq<char>| allowed_upto(progs, n as int, name) <==> allowed(*tools, name) by {
                if allowed_upto(progs, n as int, name) {
                    let j = choose|j: int|
                        0 <= j < n && trimmed(#[trigger] progs[j]@).len() > 0 && lower_seq(trimmed(progs[j]@)) == name;
                    assert(trimmed(shell.allowed_programs@[j]@).len() > 0);
                }
            }
        },
        None => {},
    }
    out
}

/// The needs of the workspace: the detected ones, with `curl` added to bazel's
/// programs when the tools file allows curl (for registry lookups).
pub open spec fn adjusted_needs(p: WorkspaceProbe, tools: ToolsFile) -> Seq<NeedView> {
    let d = detected_needs(p);
    d.map_values(
        |n: NeedView|
            if n.0 == "bazel"@ && allowed(tools, "curl"@) {
                (n.0, n.1, n.2.push("curl"@))
            } else {
                n
            },
    )
}

fn any_is_curl(programs: &Vec<String>) -> (r: bool)
    ensures
        r == exists|i: int| 0 <= i < programs@.len() && lower_seq(#[trigger] programs@[i]@) == "curl"@,
{
    let n = programs.len();
    let mut i: usize = 0;
    while i < n
        invariant
            n == programs@.len(),
            i <= n,
            forall|j: int| 0 <= j < i ==> lower_seq(#[trigger] programs@[j]@) != "curl"@,
        decreases n - i,
    {
        let low = programs[i].as_str().to_ascii_lowercase();
        if str_eq(low.as_str(), "curl") {
            return true;
        }
        i += 1;
    }
    false
}

proof fn lemma_curl_absent(p: WorkspaceProbe, i: int)
    requires
        0 <= i < detected_needs(p).len(),
        detected_needs(p)[i].0 == "bazel"@,
    ensures
        detected_needs(p)[i].2 == seq!["bazel"@],
        lower_seq("bazel"@) != "curl"@,
{
    reveal_strlit("bazel");
    reveal_strlit("curl");
    reveal_strlit("buf");
    reveal_strlit("cargo");
    reveal_strlit("go");
    reveal_strlit("npm");
    assert("bazel"@[1] != "buf"@[1]);
    assert("bazel"@[0] != "cargo"@[0]);
    assert("bazel"@[0] != "go"@[0]);
    assert("bazel"@[0] != "npm"@[0]);
    assert(lower_seq("bazel"@)[0] == 'b');
    assert("curl"@[0] == 'c');
}

/// [`detect_ecosystem_needs`], with curl added for bazel when it is allowed.
pub fn doctor_needs(probe: &WorkspaceProbe, tools: &ToolsFile) -> (r: Vec<EcosystemNeed>)
    ensures
        needs_view(r@) == adjusted_needs(*probe, *tools),
        forall|i: int| 0 <= i < r@.len() ==> (#[trigger] r@[i]).ecosystem is Some && r@[i].evidence_path is Some,
{
    let allowlist = allowlist_from_tools(tools);
    let needs = detect_ecosystem_needs(probe);
    let curl_allowed = contains_text(&allowlist, "curl");
    let ghost d = detected_needs(*probe);
    let ghost target = adjusted_needs(*probe, *tools);
    let n = needs.len();
    let mut out: Vec<EcosystemNeed> = Vec::new();
    let mut rest = needs;
    let mut i: usize = 0;
    assert(rest@.skip(0) =~= rest@);
    while i < n
        invariant
            n == d.len(),
            i <= n,
            rest@.len() == n - i,
            needs_view(rest@) == d.skip(i as int),
            forall|j: int| 0 <= j < rest@.len() ==> (#[trigger] rest@[j]).ecosystem is Some && rest@[j].evidence_path is Some,
            forall|j: int| 0 <= j < out@.len() ==> (#[trigger] out@[j]).ecosystem is Some && out@[j].evidence_path is Some,
            needs_view(out@) == target.take(i as int),
            curl_allowed == allowed(*tools, "curl"@),
            target == adjusted_needs(*probe, *tools),
            d == detected_needs(*probe),
        decreases n - i,
    {
        let ghost before_rest = rest@;
        let mut cur = rest.remove(0);
        assert(need_view(cur) == d[i as int]) by {
            assert(needs_view(before_rest)[0] == d.skip(i as int)[0]);
        }
        assert(needs_view(rest@) =~= d.skip(i + 1)) by {
            assert forall|j: int| 0 <= j < rest@.len() implies needs_view(rest@)[j] == d.skip(i + 1)[j] by {
                assert(rest@[j] == before_rest[j + 1]);
                assert(needs_view(before_rest)[j + 1] == d.skip(i as int)[j + 1]);
            }
        }
        let is_bazel = str_eq(opt_str(&cur.ecosystem, ""), "bazel");
        proof {
            if is_bazel {
                lemma_curl_absent(*probe, i as int);
                assert(views(cur.required_programs@) == seq!["bazel"@]);
                assert(views(cur.required_programs@).len() == cur.required_programs@.len());
                assert(views(cur.required_programs@)[0] == cur.required_programs@[0]@);
                assert(cur.required_programs@.len() == 1);
                assert(cur.required_programs@[0]@ == "bazel"@);
            }
        }
        if is_bazel && curl_allowed && !any_is_curl(&cur.required_programs) {
            let ghost before = views(cur.required_programs@);
            cur.required_programs.push(String::from_str("curl"));
            assert(views(cur.required_programs@) =~= before.push("curl"@));
        }
        proof {
            assert(target[i as int] == (if d[i as int].0 == "bazel"@ && allowed(*tools, "curl"@) {
                (d[i as int].0, d[i as int].1, d[i as int].2.push("curl"@))
            } else {
                d[i as int]
            }));
            assert(target[i as int] == need_view(cur));
        }
        let ghost before_out = out@;
        out.push(cur);
        assert(needs_view(out@) =~= target.take(i + 1)) by {
            assert(needs_view(out@) =~= needs_view(before_out).push(need_view(cur)));
            assert(target.take(i + 1) =~= target.take(i as int).push(target[i as int]));
        }
        i += 1;
    }
    assert(target.take(n as int) =~= target);
    out
}

} // verus!

verus! {

/// A required program, with its ecosystem and the file that showed it.
pub type ItemView = (Seq<char>, Seq<char>, Seq<char>);

pub open spec fn need_items(n: EcosystemNeed) -> Seq<ItemView> {
    views(n.required_programs@).map_values(
        |p: Seq<char>| (p, opt_or(n.ecosystem, ""@), opt_or(n.evidence_path, "?"@)),
    )
}

pub open spec fn items_view(s: Seq<(String, String, String)>) -> Seq<ItemView> {
    s.map_values(|t: (String, String, String)| (t.0@, t.1@, t.2@))
}

pub open spec fn pairs_view(s: Seq<(String, String)>) -> Seq<(Seq<char>, Seq<char>)> {
    s.map_values(|t: (String, String)| (t.0@, t.1@))
}

/// Every (program, ecosystem, evidence) of the needs, in order.
pub open spec fn flat_items(needs: Seq<EcosystemNeed>) -> Seq<ItemView>
    decreases needs.len(),
{
    if needs.len() == 0 {
        Seq::empty()
    } else {
        flat_items(needs.drop_last()) + need_items(needs.last())
    }
}

pub open spec fn not_listed_text(eco: Seq<char>, ev: Seq<char>, prog: Seq<char>) -> Seq<char> {
    "for "@ + eco + " dependencies (found `"@ + ev + "`) program `"@ + prog
        + "` is required but not listed in `.depbot/tools.yaml` allowed_programs; cannot continue"@
}

pub open spec fn not_on_path_text(eco: Seq<char>, ev: Seq<char>, prog: Seq<char>) -> Seq<char> {
    "for "@ + eco + " dependencies (found `"@ + ev + "`) `"@ + prog
        + "` must be installed and on PATH, but it was not found; cannot continue"@
}

/// A problem found: the program, its ecosystem, and the message.
pub type IssueView = (Seq<char>, Seq<char>, Seq<char>);

pub open spec fn issue_view(i: DoctorIssue) -> IssueView {
    (opt_or(i.program, ""@), opt_or(i.ecosystem, ""@), opt_or(i.message, ""@))
}

pub open spec fn issues_view(s: Seq<DoctorIssue>) -> Seq<IssueView> {
    s.map_values(|i: DoctorIssue| issue_view(i))
}

/// The issues of the required programs, in order: each (trimmed, non-blank)
/// program is judged once per ecosystem (compared case-insensitively); it is an
/// issue when the tools file does not allow it, else when it is not on PATH.
pub open spec fn issues_from(
    items: Seq<ItemView>,
    seen: Seq<(Seq<char>, Seq<char>)>,
    tools: ToolsFile,
    on_path: Seq<Seq<char>>,
) -> Seq<IssueView>
    decreases items.len(),
{
    if items.len() == 0 {
        Seq::empty()
    } else {
        let (p, eco, ev) = items[0];
        let prog = trimmed(p);
        let rest = items.drop_first();
        if prog.len() == 0 {
            issues_from(rest, seen, tools, on_path)
        } else {
            let key = (lower_seq(prog), eco);
            if seen.contains(key) {
                issues_from(rest, seen, tools, on_path)
            } else {
                let here: Seq<IssueView> = if !allowed(tools, lower_seq(prog)) {
                    seq![(prog, eco, not_listed_text(eco, ev, prog))]
                } else if !on_path.contains(prog) {
                    seq![(prog, eco, not_on_path_text(eco, ev, prog))]
                } else {
                    Seq::empty()
                };
                here + issues_from(rest, seen.push(key), tools, on_path)
            }
        }
    }
}

fn flatten_needs(needs: &Vec<EcosystemNeed>) -> (r: Vec<(String, String, String)>)
    ensures
        items_view(r@) == flat_items(needs@),
{
    let mut out: Vec<(String, String, String)> = Vec::new();
    let n = needs.len();
    let mut i: usize = 0;
    while i < n
        invariant
            n == needs@.len(),
            i <= n,
            items_view(out@) == flat_items(needs@.take(i as int)),
        decreases n - i,
    {
        let need = &needs[i];
        let eco = opt_str(&need.ecosystem, "");
        let ev = opt_str(&need.evidence_path, "?");
        let ghost base = items_view(out@);
        let m = need.required_programs.len();
        let mut j: usize = 0;
        while j < m
            invariant
                m == need.required_programs@.len(),
                j <= m,
                eco@ == opt_or(need.ecosystem, ""@),
                ev@ == opt_or(need.evidence_path, "?"@),
                items_view(out@) == base + need_items(*need).take(
                    j as int,
                ),
            decreases m - j,
        {
            let ghost before = out@;
            let p = need.required_programs[j].clone();
            let ghost item = (p@, eco@, ev@);
            assert(item == need_items(*need)[j as int]);
            out.push((p, String::from_str(eco), String::from_str(ev)));
            assert(items_view(out@) =~= base + need_items(
                *need,
            ).take(j + 1)) by {
                let t = need_items(*need).take(j + 1);
                assert(t =~= need_items(*need).take(j as int).push(item));
                assert(items_view(before) == base + need_items(*need).take(j as int));
                assert(items_view(out@).len() == before.len() + 1);
                assert forall|k: int| 0 <= k < before.len() implies items_view(out@)[k] == items_view(
                    before,
                )[k] by {
                    assert(out@[k] == before[k]);
                }
                assert(items_view(out@)[before.len() as int] == item);
                assert(items_view(out@) =~= items_view(before).push(item));
            }
            j += 1;
        }
        assert(need_items(*need).take(m as int) =~= need_items(*need));
        assert(needs@.take(i + 1).drop_last() =~= needs@.take(i as int));
        i += 1;
    }
    assert(needs@.take(n as int) =~= needs@);
    out
}

fn contains_pair(v: &Vec<(String, String)>, a: &str, b: &str) -> (r: bool)
    ensures
        r == pairs_view(v@).contains((a@, b@)),
{
    let ghost vv = pairs_view(v@);
    let n = v.len();
    let mut i: usize = 0;
    while i < n
        invariant
            n == v@.len(),
            vv == pairs_view(v@),
            i <= n,
            forall|j: int| 0 <= j < i ==> vv[j] != (a@, b@),
        decreases n - i,
    {
        if str_eq(v[i].0.as_str(), a) && str_eq(v[i].1.as_str(), b) {
            assert(vv[i as int] == (a@, b@));
            return true;
        }
        i += 1;
    }
    false
}

fn issue_text(not_listed: bool, eco: &str, ev: &str, prog: &str) -> (r: String)
    ensures
        not_listed ==> r@ == not_listed_text(eco@, ev@, prog@),
        !not_listed ==> r@ == not_on_path_text(eco@, ev@, prog@),
{
    let mut m = String::from_str("for ");
    m.append(eco);
    m.append(" dependencies (found `");
    m.append(ev);
    if not_listed {
        m.append("`) program `");
        m.append(prog);
        m.append("` is required but not listed in `.depbot/tools.yaml` allowed_programs; cannot continue");
    } else {
        m.append("`) `");
        m.append(prog);
        m.append("` must be installed and on PATH, but it was not found; cannot continue");
    }
    m
}

/// Run the doctor over the files of the workspace root and the tools file.
/// `on_path` names the required programs that were found on PATH.
pub fn run_doctor(probe: &WorkspaceProbe, tools: &ToolsFile, on_path: &Vec<String>) -> (r: Result<
    DoctorReport,
    ConfigError,
>)
    ensures
        r matches Ok(report) && {
            &&& needs_view(report.needs@) == adjusted_needs(*probe, *tools)
            &&& issues_view(report.issues@) == issues_from(
                flat_items(report.needs@),
                Seq::empty(),
                *tools,
                views(on_path@),
            )
            &&& report.ok == Some(report.issues@.len() == 0)
            &&& forall|i: int|
                0 <= i < report.issues@.len() ==> (#[trigger] report.issues@[i]).program is Some
                    && report.issues@[i].ecosystem is Some && report.issues@[i].message is Some
        },
{
    let allowlist = allowlist_from_tools(tools);
    let needs = doctor_needs(probe, tools);
    let items = flatten_needs(&needs);
    let ghost iv = items_view(items@);
    let ghost target = issues_from(iv, Seq::empty(), *tools, views(on_path@));
    let mut issues: Vec<DoctorIssue> = Vec::new();
    let mut seen: Vec<(String, String)> = Vec::new();
    let n = items.len();
    let mut i: usize = 0;
    assert(iv.skip(0) =~= iv);
    assert(pairs_view(seen@) =~= Seq::<(Seq<char>, Seq<char>)>::empty());
    while i < n
        invariant
            n == items@.len(),
            iv == items_view(items@),
            target == issues_from(iv, Seq::empty(), *tools, views(on_path@)),
            forall|name: Seq<char>| views(allowlist@).contains(name) <==> allowed(*tools, name),
            i <= n,
            issues_view(issues@) + issues_from(
                iv.skip(i as int),
                pairs_view(seen@),
                *tools,
                views(on_path@),
            ) == target,
            forall|k: int|
                0 <= k < issues@.len() ==> (#[trigger] issues@[k]).program is Some && issues@[k].ecosystem is Some
                    && issues@[k].message is Some,
        decreases n - i,
    {
        let ghost sv = pairs_view(seen@);
        let ghost rest = iv.skip(i as int);
        assert(rest[0] == iv[i as int]);
        assert(rest.drop_first() =~= iv.skip(i + 1));
        let prog = items[i].0.as_str().trim();
        let eco = items[i].1.as_str();
        let ev = items[i].2.as_str();
        if !prog.is_empty() {
            let key = prog.to_ascii_lowercase();
            if !contains_pair(&seen, key.as_str(), eco) {
                let in_allowlist = contains_text(&allowlist, key.as_str());
                let found = contains_text(on_path, prog);
                let ghost before = issues_view(issues@);
                if !in_allowlist || !found {
                    let message = issue_text(!in_allowlist, eco, ev, prog);
                    issues.push(
                        DoctorIssue {
                            program: Some(String::from_str(prog)),
                            ecosystem: Some(String::from_str(eco)),
                            message: Some(message),
                        },
                    );
                    assert(issues_view(issues@) =~= before.push(issues_view(issues@).last()));
                }
                seen.push((key, String::from_str(eco)));
                assert(pairs_view(seen@) =~= sv.push((lower_seq(prog@), eco@)));
            }
        }
        i += 1;
    }
    assert(iv.skip(n as int).len() == 0);
    assert(issues_view(issues@) =~= target);
    let ok = issues.len() == 0;
    Ok(DoctorReport { ok: Some(ok), needs, issues })
}

/// `- {message}` (`unknown issue` when it has none).
pub open spec fn issue_line(i: DoctorIssue) -> Seq<char> {
    "- "@ + opt_or(i.message, "unknown issue"@)
}

pub open spec fn issue_lines(s: Seq<DoctorIssue>) -> Seq<Seq<char>> {
    s.map_values(|i: DoctorIssue| issue_line(i))
}

/// `- {ecosystem} ({evidence}) → requires: {programs}`.
pub open spec fn failure_need_line(n: EcosystemNeed) -> Seq<char> {
    "- "@ + opt_or(n.ecosystem, "?"@) + " ("@ + opt_or(n.evidence_path, "?"@) + ") → requires: "@ + join_spec(
        views(n.required_programs@),
        ", "@,
    )
}

pub open spec fn failure_need_lines(s: Seq<EcosystemNeed>) -> Seq<Seq<char>> {
    s.map_values(|n: EcosystemNeed| failure_need_line(n))
}

/// The lines of a failed report: a heading, one line per issue, then the
/// detected ecosystems when there are any.
pub open spec fn failure_lines(report: DoctorReport) -> Seq<Seq<char>> {
    seq!["depbot doctor failed: required tools are missing or not allowlisted."@] + issue_lines(
        report.issues@,
    ) + if report.needs@.len() == 0 {
        Seq::<Seq<char>>::empty()
    } else {
        seq!["Detected ecosystems:"@] + failure_need_lines(report.needs@)
    }
}

/// `- `{ecosystem}` — evidence `{evidence}`; tools ready: {programs}`.
pub open spec fn context_need_line(n: EcosystemNeed) -> Seq<char> {
    "- `"@ + opt_or(n.ecosystem, "?"@) + "` — evidence `"@ + opt_or(n.evidence_path, "?"@) + "`; tools ready: "@
        + join_spec(views(n.required_programs@), ", "@)
}

pub open spec fn context_need_lines(s: Seq<EcosystemNeed>) -> Seq<Seq<char>> {
    s.map_values(|n: EcosystemNeed| context_need_line(n))
}

pub open spec fn context_head() -> Seq<Seq<char>> {
    seq![
        "## Depbot doctor (preflight — trust these facts)"@,
        ""@,
        "A deterministic preflight already scanned the **workspace root** for ecosystem manifests and verified required programs are allowlisted and on PATH."@,
        "Do **not** spend tool calls confirming missing root manifests that are absent below (e.g. do not `read_file` `go.mod` / `package.json` unless a nested path is in scope)."@,
        "You may still open the listed evidence files when you need their contents for scanning or comments."@,
        ""@,
    ]
}

pub open spec fn context_tail() -> Seq<Seq<char>> {
    seq![
        ""@,
        "**Not detected at workspace root** (skip probing unless the user asks about nested trees): any ecosystem missing from the list above among go / npm / cargo / bazel / buf."@,
    ]
}

/// The lines of the doctor's facts for the agent's system prompt.
pub open spec fn context_lines(report: DoctorReport) -> Seq<Seq<char>> {
    context_head() + if report.needs@.len() == 0 {
        seq![
            "**Detected ecosystems (root):** none — no `go.mod`, `package.json`, `Cargo.toml`, `MODULE.bazel` / `*.MODULE.bazel`, or `buf.yaml` at the workspace root."@,
        ]
    } else {
        seq!["**Detected ecosystems (root):**"@] + context_need_lines(report.needs@)
    } + context_tail()
}

fn push_line(lines: &mut Vec<String>, line: String)
    ensures
        views(final(lines)@) == views(old(lines)@).push(line@),
{
    let ghost before = lines@;
    lines.push(line);
    assert(views(lines@) =~= views(before).push(line@)) by {
        assert forall|k: int| 0 <= k < before.len() implies views(lines@)[k] == views(before)[k] by {
            assert(lines@[k] == before[k]);
        }
    }
}

fn failure_need_text(n: &EcosystemNeed) -> (r: String)
    ensures
        r@ == failure_need_line(*n),
{
    let mut out = String::from_str("- ");
    out.append(opt_str(&n.ecosystem, "?"));
    out.append(" (");
    out.append(opt_str(&n.evidence_path, "?"));
    out.append(") → requires: ");
    let progs = join(&n.required_programs, ", ");
    out.append(progs.as_str());
    out
}

fn context_need_text(n: &EcosystemNeed) -> (r: String)
    ensures
        r@ == context_need_line(*n),
{
    let mut out = String::from_str("- `");
    out.append(opt_str(&n.ecosystem, "?"));
    out.append("` — evidence `");
    out.append(opt_str(&n.evidence_path, "?"));
    out.append("`; tools ready: ");
    let progs = join(&n.required_programs, ", ");
    out.append(progs.as_str());
    out
}

/// Format a failed report for the command line's error output.
pub fn format_doctor_failure(report: &DoctorReport) -> (r: String)
    ensures
        r@ == join_spec(failure_lines(*report), "\n"@),
{
    let mut lines: Vec<String> = Vec::new();
    push_line(&mut lines, String::from_str("depbot doctor failed: required tools are missing or not allowlisted."));
    let ghost head = views(lines@);
    let n = report.issues.len();
    let mut i: usize = 0;
    while i < n
        invariant
            n == report.issues@.len(),
            i <= n,
            views(lines@) == head + issue_lines(report.issues@.take(i as int)),
        decreases n - i,
    {
        let issue = &report.issues[i];
        let mut line = String::from_str("- ");
        line.append(opt_str(&issue.message, "unknown issue"));
        push_line(&mut lines, line);
        assert(issue_lines(report.issues@.take(i + 1)) =~= issue_lines(report.issues@.take(i as int)).push(
            issue_line(*issue),
        ));
        i += 1;
    }
    assert(report.issues@.take(n as int) =~= report.issues@);
    if report.needs.len() > 0 {
        push_line(&mut lines, String::from_str("Detected ecosystems:"));
        let ghost mid = views(lines@);
        let m = report.needs.len();
        let mut j: usize = 0;
        while j < m
            invariant
                m == report.needs@.len(),
                j <= m,
                views(lines@) == mid + failure_need_lines(report.needs@.take(j as int)),
            decreases m - j,
        {
            let need = &report.needs[j];
            push_line(&mut lines, failure_need_text(need));
            assert(failure_need_lines(report.needs@.take(j + 1)) =~= failure_need_lines(
                report.needs@.take(j as int),
            ).push(failure_need_line(*need)));
            j += 1;
        }
        assert(report.needs@.take(m as int) =~= report.needs@);
    }
    assert(views(lines@) =~= failure_lines(*report));
    join(&lines, "\n")
}

/// Format a successful report for the agent's system prompt, so that the
/// model does not probe again for manifests that are known to be absent.
pub fn format_doctor_context(report: &DoctorReport) -> (r: String)
    ensures
        r@ == join_spec(context_lines(*report), "\n"@),
{
    let mut lines: Vec<String> = Vec::new();
    push_line(&mut lines, String::from_str("## Depbot doctor (preflight — trust these facts)"));
    push_line(&mut lines, String::new());
    push_line(
        &mut lines,
        String::from_str(
            "A deterministic preflight already scanned the **workspace root** for ecosystem manifests and verified required programs are allowlisted and on PATH.",
        ),
    );
    push_line(
        &mut lines,
        String::from_str(
            "Do **not** spend tool calls confirming missing root manifests that are absent below (e.g. do not `read_file` `go.mod` / `package.json` unless a nested path is in scope).",
        ),
    );
    push_line(
        &mut lines,
        String::from_str(
            "You may still open the listed evidence files when you need their contents for scanning or comments.",
        ),
    );
    push_line(&mut lines, String::new());
    proof {
        reveal_strlit("");
        let h = context_head();
        assert(views(lines@).len() == h.len());
        assert forall|k: int| 0 <= k < h.len() implies views(lines@)[k] == h[k] by {
            assert(views(lines@)[k] == lines@[k]@);
        }
        assert(views(lines@) =~= h);
    }
    if report.needs.len() == 0 {
        push_line(
            &mut lines,
            String::from_str(
                "**Detected ecosystems (root):** none — no `go.mod`, `package.json`, `Cargo.toml`, `MODULE.bazel` / `*.MODULE.bazel`, or `buf.yaml` at the workspace root.",
            ),
        );
    } else {
        push_line(&mut lines, String::from_str("**Detected ecosystems (root):**"));
        let ghost mid = views(lines@);
        let m = report.needs.len();
        let mut j: usize = 0;
        while j < m
            invariant
                m == report.needs@.len(),
                j <= m,
                views(lines@) == mid + context_need_lines(report.needs@.take(j as int)),
            decreases m - j,
        {
            let need = &report.needs[j];
            push_line(&mut lines, context_need_text(need));
            assert(context_need_lines(report.needs@.take(j + 1)) =~= context_need_lines(
                report.needs@.take(j as int),
            ).push(context_need_line(*need)));
            j += 1;
        }
        assert(report.needs@.take(m as int) =~= report.needs@);
    }
    let ghost body = views(lines@);
    push_line(&mut lines, String::new());
    push_line(
        &mut lines,
        String::from_str(
            "**Not detected at workspace root** (skip probing unless the user asks about nested trees): any ecosystem missing from the list above among go / npm / cargo / bazel / buf.",
        ),
    );
    assert(views(lines@) =~= body + context_tail());
    assert(views(lines@) =~= context_lines(*report));
    join(&lines, "\n")
}

/// The doctor finds no issue when every required program is allowlisted and
/// on PATH.
pub proof fn lemma_doctor_ok_when_all_ready(
    items: Seq<ItemView>,
    seen: Seq<(Seq<char>, Seq<char>)>,
    tools: ToolsFile,
    on_path: Seq<Seq<char>>,
)
    requires
        forall|i: int|
            0 <= i < items.len() && trimmed(#[trigger] items[i].0).len() > 0 ==> allowed(
                tools,
                lower_seq(trimmed(items[i].0)),
            ) && on_path.contains(trimmed(items[i].0)),
    ensures
        issues_from(items, seen, tools, on_path) == Seq::<IssueView>::empty(),
    decreases items.len(),
{
    if items.len() > 0 {
        let rest = items.drop_first();
        assert forall|i: int|
            0 <= i < rest.len() && trimmed(#[trigger] rest[i].0).len() > 0 implies allowed(
                tools,
                lower_seq(trimmed(rest[i].0)),
            ) && on_path.contains(trimmed(rest[i].0)) by {
            assert(rest[i] == items[i + 1]);
        }
        let prog = trimmed(items[0].0);
        let key = (lower_seq(prog), items[0].1);
        lemma_doctor_ok_when_all_ready(rest, seen, tools, on_path);
        lemma_doctor_ok_when_all_ready(rest, seen.push(key), tools, on_path);
    }
}

proof fn lemma_not_allowlisted_reported(
    items: Seq<ItemView>,
    seen: Seq<(Seq<char>, Seq<char>)>,
    tools: ToolsFile,
    on_path: Seq<Seq<char>>,
    i: int,
)
    requires
        0 <= i < items.len(),
        trimmed(items[i].0).len() > 0,
        !allowed(tools, lower_seq(trimmed(items[i].0))),
        forall|k: int| 0 <= k < seen.len() ==> allowed(tools, (#[trigger] seen[k]).0),
    ensures
        issues_from(items, seen, tools, on_path).len() > 0,
    decreases items.len(),
{
    let rest = items.drop_first();
    let prog = trimmed(items[0].0);
    let key = (lower_seq(prog), items[0].1);
    if i > 0 {
        assert(rest[i - 1] == items[i]);
    }
    if prog.len() == 0 {
        lemma_not_allowlisted_reported(rest, seen, tools, on_path, i - 1);
    } else if seen.contains(key) {
        let k = choose|k: int| 0 <= k < seen.len() && seen[k] == key;
        assert(allowed(tools, seen[k].0));
        lemma_not_allowlisted_reported(rest, seen, tools, on_path, i - 1);
    } else if allowed(tools, lower_seq(prog)) {
        let seen2 = seen.push(key);
        assert forall|k: int| 0 <= k < seen2.len() implies allowed(tools, (#[trigger] seen2[k]).0) by {
            if k < seen.len() {
                assert(seen2[k] == seen[k]);
            }
        }
        lemma_not_allowlisted_reported(rest, seen2, tools, on_path, i - 1);
    }
}

/// The doctor reports an issue whenever some required program is not
/// allowlisted by the tools file.
pub proof fn lemma_doctor_fails_when_not_allowlisted(
    items: Seq<ItemView>,
    tools: ToolsFile,
    on_path: Seq<Seq<char>>,
    i: int,
)
    requires
        0 <= i < items.len(),
        trimmed(items[i].0).len() > 0,
        !allowed(tools, lower_seq(trimmed(items[i].0))),
    ensures
        issues_from(items, Seq::empty(), tools, on_path).len() > 0,
{
    lemma_not_allowlisted_reported(items, Seq::empty(), tools, on_path, i);
}

pub open spec fn item_key(item: ItemView) -> (Seq<char>, Seq<char>) {
    (lower_seq(trimmed(item.0)), item.1)
}

proof fn lemma_missing_program_reported(
    items: Seq<ItemView>,
    seen: Seq<(Seq<char>, Seq<char>)>,
    tools: ToolsFile,
    on_path: Seq<Seq<char>>,
    i: int,
)
    requires
        0 <= i < items.len(),
        trimmed(items[i].0).len() > 0,
        !on_path.contains(trimmed(items[i].0)),
        !seen.contains(item_key(items[i])),
        forall|j: int|
            0 <= j < i && trimmed(items[j].0).len() > 0 && item_key(#[trigger] items[j]) == item_key(items[i])
                ==> !on_path.contains(trimmed(items[j].0)),
    ensures
        issues_from(items, seen, tools, on_path).len() > 0,
    decreases items.len(),
{
    let rest = items.drop_first();
    let prog = trimmed(items[0].0);
    let key = (lower_seq(prog), items[0].1);
    assert(key == item_key(items[0]));
    if i > 0 {
        assert(rest[i - 1] == items[i]);
        assert forall|j: int|
            0 <= j < i - 1 && trimmed(rest[j].0).len() > 0 && item_key(#[trigger] rest[j]) == item_key(
                rest[i - 1],
            ) implies !on_path.contains(trimmed(rest[j].0)) by {
            assert(rest[j] == items[j + 1]);
        }
    }
    if prog.len() == 0 {
        lemma_missing_program_reported(rest, seen, tools, on_path, i - 1);
    } else if seen.contains(key) {
        lemma_missing_program_reported(rest, seen, tools, on_path, i - 1);
    } else if allowed(tools, lower_seq(prog)) && on_path.contains(prog) {
        let seen2 = seen.push(key);
        assert(!seen2.contains(item_key(items[i]))) by {
            if seen2.contains(item_key(items[i])) {
                let k = choose|k: int| 0 <= k < seen2.len() && seen2[k] == item_key(items[i]);
                if k < seen.len() {
                    assert(seen[k] == seen2[k]);
                }
            }
        }
        lemma_missing_program_reported(rest, seen2, tools, on_path, i - 1);
    }
}

/// The doctor reports an issue for a required program that is missing from
/// PATH, unless the same program (compared case-insensitively) was already
/// required by the same ecosystem under a spelling that is on PATH: each
/// program is judged once per ecosystem, at its first occurrence.
pub proof fn lemma_doctor_fails_when_missing_from_path(
    items: Seq<ItemView>,
    tools: ToolsFile,
    on_path: Seq<Seq<char>>,
    i: int,
)
    requires
        0 <= i < items.len(),
        trimmed(items[i].0).len() > 0,
        !on_path.contains(trimmed(items[i].0)),
        forall|j: int|
            0 <= j < i && trimmed(items[j].0).len() > 0 && item_key(#[trigger] items[j]) == item_key(items[i])
                ==> !on_path.contains(trimmed(items[j].0)),
    ensures
        issues_from(items, Seq::empty(), tools, on_path).len() > 0,
{
    lemma_missing_program_reported(items, Seq::empty(), tools, on_path, i);
}

} // verus!
