//! The values offered when completing arguments in a shell, and the guide
//! to enabling completions.
use crate::project::{ModuleType, ModuleView, Project};
use crate::text::{chars_of, concat2, concat3, ends_with, has_suffix, owned, strings_view};
use vstd::prelude::*;

verus! {

/// The part of a comma-separated argument before its last item: up to and
/// including the last comma, empty without one.
pub open spec fn before_last_item(s: Seq<char>) -> Seq<char>
    decreases s.len(),
{
    if s.len() == 0 {
        Seq::empty()
    } else if s.last() == ',' {
        s
    } else {
        before_last_item(s.drop_last())
    }
}

/// The completions of a device argument: each device name after the items
/// already typed.
pub open spec fn device_completions(current: Seq<char>, names: Seq<Seq<char>>) -> Seq<Seq<char>> {
    names.map_values(|n: Seq<char>| before_last_item(current) + n)
}

/// Offers each device name after the items already typed (see
/// `device_completions`).
pub fn complete_device_values(current: &str, names: &Vec<String>) -> (r: Vec<String>)
    ensures
        strings_view(r@) == device_completions(current@, strings_view(names@)),
{
    let v = chars_of(current);
    let mut j = v.len();
    assert(current@.take(j as int) =~= current@);
    while j > 0 && v[j - 1] != ','
        invariant
            j <= v@.len(),
            v@ == current@,
            before_last_item(current@) == before_last_item(current@.take(j as int)),
        decreases j,
    {
        assert(current@.take(j as int).drop_last() =~= current@.take(j - 1));
        j = j - 1;
    }
    proof {
        if j > 0 {
            assert(current@.take(j as int).last() == ',');
        } else {
            assert(current@.take(0) =~= Seq::<char>::empty());
        }
    }
    assert(current@.take(j as int) =~= current@.subrange(0, j as int));
    let prefix = current.substring_char(0, j);
    let ghost want = device_completions(current@, strings_view(names@));
    let mut out: Vec<String> = Vec::new();
    let mut i: usize = 0;
    while i < names.len()
        invariant
            i <= names@.len(),
            prefix@ == before_last_item(current@),
            want == device_completions(current@, strings_view(names@)),
            strings_view(out@) == want.take(i as int),
        decreases names.len() - i,
    {
        let ghost before = strings_view(out@);
        out.push(concat2(prefix, names[i].as_str()));
        assert(strings_view(out@) =~= before.push(want[i as int]));
        assert(want.take(i + 1) =~= want.take(i as int).push(want[i as int]));
        i = i + 1;
    }
    assert(want.take(i as int) =~= want);
    out
}

/// A module offered for completion: its name and a help text with its kind
/// of listing and source path.
pub open spec fn module_completion(label: Seq<char>, m: ModuleView) -> (Seq<char>, Seq<char>) {
    (m.name, label + ": "@ + m.name + " ("@ + m.src_path + ")"@)
}

/// Modules that can be run: entry and feature modules.
pub open spec fn is_runnable() -> spec_fn(ModuleView) -> bool {
    |m: ModuleView| m.module_type == ModuleType::Entry || m.module_type == ModuleType::Feature
}

/// Pairs of strings as plain values.
pub open spec fn pairs_view(v: Seq<(String, String)>) -> Seq<(Seq<char>, Seq<char>)> {
    v.map_values(|p: (String, String)| (p.0@, p.1@))
}

/// The completions of a module argument: every module, with `Module` help;
/// when `runnable_only`, the runnable ones with `Runnable Module` help.
pub open spec fn module_completions(ms: Seq<ModuleView>, runnable_only: bool) -> Seq<(Seq<char>, Seq<char>)> {
    if runnable_only {
        ms.filter(is_runnable()).map_values(|m: ModuleView| module_completion("Runnable Module"@, m))
    } else {
        ms.map_values(|m: ModuleView| module_completion("Module"@, m))
    }
}

/// Offers the modules of a project (see `module_completions`).
pub fn complete_module_values(project: &Project, runnable_only: bool) -> (r: Vec<(String, String)>)
    ensures
        pairs_view(r@) == module_completions(project@.modules, runnable_only),
{
    let ghost ms = project@.modules;
    let ghost label = if runnable_only {
        "Runnable Module"@
    } else {
        "Module"@
    };
    let ghost kept = if runnable_only {
        ms.filter(is_runnable())
    } else {
        ms
    };
    let mut out: Vec<(String, String)> = Vec::new();
    let mut i: usize = 0;
    proof {
        reveal(Seq::filter);
        assert(ms.take(0) =~= Seq::<ModuleView>::empty());
    }
    while i < project.modules.len()
        invariant
            i <= project.modules@.len(),
            ms == project@.modules,
            ms.len() == project.modules@.len(),
            label == (if runnable_only {
                "Runnable Module"@
            } else {
                "Module"@
            }),
            pairs_view(out@) == (if runnable_only {
                ms.take(i as int).filter(is_runnable())
            } else {
                ms.take(i as int)
            }).map_values(|m: ModuleView| module_completion(label, m)),
        decreases project.modules.len() - i,
    {
        let m = &project.modules[i];
        assert(ms[i as int] == m@);
        proof {
            reveal(Seq::filter);
            assert(ms.take(i + 1).drop_last() =~= ms.take(i as int));
            assert(ms.take(i + 1).last() == ms[i as int]);
        }
        let runnable = match m.module_type {
            ModuleType::Entry | ModuleType::Feature => true,
            _ => false,
        };
        let ghost before = pairs_view(out@);
        if !runnable_only || runnable {
            let lbl = if runnable_only {
                "Runnable Module"
            } else {
                "Module"
            };
            let mut help = concat3(lbl, ": ", m.name.as_str());
            help.append(" (");
            help.append(m.src_path.as_str());
            help.append(")");
            out.push((owned(m.name.as_str()), help));
            assert(pairs_view(out@) =~= before.push(module_completion(label, m@)));
        }
        i = i + 1;
    }
    assert(ms.take(i as int) =~= ms);
    out
}


/// The shells whose completion setup the guide singles out.
#[derive(Debug, Clone, Copy, PartialEq, Eq, Structural)]
pub enum GuideShell {
    Zsh,
    Bash,
    Fish,
}

/// The shell that the value of `SHELL` names, by how it ends: `zsh`, `bash`
/// or `fish`, tried in this order.
pub open spec fn detected_shell(shell: Seq<char>) -> Option<GuideShell> {
    if has_suffix(shell, "zsh"@) {
        Some(GuideShell::Zsh)
    } else if has_suffix(shell, "bash"@) {
        Some(GuideShell::Bash)
    } else if has_suffix(shell, "fish"@) {
        Some(GuideShell::Fish)
    } else {
        None
    }
}

/// The guide that `heco completion` prints without a shell: how to enable
/// completions in zsh, bash, fish and PowerShell; the section of the shell
/// that `SHELL` names says it was detected and where the command goes.
pub open spec fn guide_lines(shell: Seq<char>) -> Seq<Seq<char>> {
    let d = detected_shell(shell);
    seq![
        "heco command-line completions (Dynamic)"@,
        "======================================="@,
        "To enable dynamic completions for your shell, run the corresponding command:"@,
        ""@,
        if d == Some(GuideShell::Zsh) {
            "🌟 Detected Zsh. Add this to your ~/.zshrc:"@
        } else {
            "Zsh:"@
        },
        "   autoload -Uz compinit; compinit"@,
        "   source <(heco completion zsh)"@,
        ""@,
        if d == Some(GuideShell::Bash) {
            "🌟 Detected Bash. Add this to your ~/.bashrc:"@
        } else {
            "Bash:"@
        },
        "   eval \"$(heco completion bash)\""@,
        ""@,
        if d == Some(GuideShell::Fish) {
            "🌟 Detected Fish. Add this to your ~/.config/fish/config.fish:"@
        } else {
            "Fish:"@
        },
        "   heco completion fish | source"@,
        ""@,
        "PowerShell:"@,
        "   heco completion powershell | Out-String | Invoke-Expression"@,
        ""@,
        "(Note: After adding the command to your config, restart your terminal.)"@,
    ]
}

/// Tells the shell that the value of `SHELL` names (see `detected_shell`).
pub fn detect_shell(shell: &str) -> (r: Option<GuideShell>)
    ensures
        r == detected_shell(shell@),
{
    if ends_with(shell, "zsh") {
        Some(GuideShell::Zsh)
    } else if ends_with(shell, "bash") {
        Some(GuideShell::Bash)
    } else if ends_with(shell, "fish") {
        Some(GuideShell::Fish)
    } else {
        None
    }
}

/// The lines of the completion guide for the value of `SHELL` (see
/// `guide_lines`).
pub fn completion_guide(shell: &str) -> (r: Vec<String>)
    ensures
        strings_view(r@) == guide_lines(shell@),
{
    let d = detect_shell(shell);
    let mut v: Vec<String> = Vec::new();
    v.push(owned("heco command-line completions (Dynamic)"));
    v.push(owned("======================================="));
    v.push(owned("To enable dynamic completions for your shell, run the corresponding command:"));
    v.push(owned(""));
    v.push(owned(if d == Some(GuideShell::Zsh) {
        "🌟 Detected Zsh. Add this to your ~/.zshrc:"
    } else {
        "Zsh:"
    }));
    v.push(owned("   autoload -Uz compinit; compinit"));
    v.push(owned("   source <(heco completion zsh)"));
    v.push(owned(""));
    v.push(owned(if d == Some(GuideShell::Bash) {
        "🌟 Detected Bash. Add this to your ~/.bashrc:"
    } else {
        "Bash:"
    }));
    v.push(owned("   eval \"$(heco completion bash)\""));
    v.push(owned(""));
    v.push(owned(if d == Some(GuideShell::Fish) {
        "🌟 Detected Fish. Add this to your ~/.config/fish/config.fish:"
    } else {
        "Fish:"
    }));
    v.push(owned("   heco completion fish | source"));
    v.push(owned(""));
    v.push(owned("PowerShell:"));
    v.push(owned("   heco completion powershell | Out-String | Invoke-Expression"));
    v.push(owned(""));
    v.push(owned("(Note: After adding the command to your config, restart your terminal.)"));
    assert(strings_view(v@) =~= guide_lines(shell@));
    v
}

} // verus!
