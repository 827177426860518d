//! `heco check`, `heco run` and `heco test`: their arguments and the lines
//! they print.
use crate::text::{concat2, concat3, owned, strings_view};
use vstd::prelude::*;

verus! {

/// Arguments of `heco check`.
pub struct CheckArgs {
    /// Print only what is necessary.
    pub quiet: bool,
}

/// Arguments of `heco run`.
pub struct RunArgs {
    /// The module to run, `module` or `module@target`.
    pub module: Option<String>,
    /// The device to run on.
    pub device: Option<String>,
    pub quiet: bool,
}

/// Arguments of `heco test`.
pub struct TestArgs {
    /// The module to test, `module` or `module@target`.
    pub module: Option<String>,
    pub quiet: bool,
}

/// What `heco check` prints: its result, unless quiet.
pub open spec fn check_lines(quiet: bool) -> Seq<Seq<char>> {
    if quiet {
        Seq::empty()
    } else {
        seq!["检查完成，未发现代码错误"@]
    }
}

/// The lines that `heco check` prints.
pub fn handle_check(args: &CheckArgs) -> (r: Vec<String>)
    ensures
        strings_view(r@) == check_lines(args.quiet),
{
    let mut v: Vec<String> = Vec::new();
    if !args.quiet {
        v.push(owned("检查完成，未发现代码错误"));
    }
    assert(strings_view(v@) =~= check_lines(args.quiet));
    v
}

/// What `heco run` prints unless quiet: the module it runs and the device
/// it runs on, each or their absence.
pub open spec fn run_lines(module: Option<Seq<char>>, device: Option<Seq<char>>, quiet: bool) -> Seq<
    Seq<char>,
> {
    if quiet {
        Seq::empty()
    } else {
        seq![
            match module {
                Some(m) => "运行模块："@ + m,
                None => "运行默认模块"@,
            },
            match device {
                Some(d) => "在设备 '"@ + d + "' 上运行"@,
                None => "未指定设备，请在项目中连接设备后运行"@,
            },
        ]
    }
}

/// The lines that `heco run` prints.
pub fn handle_run(args: &RunArgs) -> (r: Vec<String>)
    ensures
        strings_view(r@) == run_lines(
            crate::text::opt_string_view(args.module),
            crate::text::opt_string_view(args.device),
            args.quiet,
        ),
{
    let mut v: Vec<String> = Vec::new();
    if !args.quiet {
        match &args.module {
            Some(m) => v.push(concat2("运行模块：", m.as_str())),
            None => v.push(owned("运行默认模块")),
        }
        match &args.device {
            Some(d) => v.push(concat3("在设备 '", d.as_str(), "' 上运行")),
            None => v.push(owned("未指定设备，请在项目中连接设备后运行")),
        }
    }
    assert(strings_view(v@) =~= run_lines(
        crate::text::opt_string_view(args.module),
        crate::text::opt_string_view(args.device),
        args.quiet,
    ));
    v
}

/// What `heco test` prints: unless quiet the module it tests or its
/// absence; then always that testing is done.
pub open spec fn test_lines(module: Option<Seq<char>>, quiet: bool) -> Seq<Seq<char>> {
    (if quiet {
        Seq::empty()
    } else {
        seq![
            match module {
                Some(m) => "测试模块："@ + m,
                None => "测试默认模块"@,
            },
        ]
    }) + seq!["测试完成"@]
}

/// The lines that `heco test` prints.
pub fn handle_test(args: &TestArgs) -> (r: Vec<String>)
    ensures
        strings_view(r@) == test_lines(crate::text::opt_string_view(args.module), args.quiet),
{
    let mut v: Vec<String> = Vec::new();
    if !args.quiet {
        match &args.module {
            Some(m) => v.push(concat2("测试模块：", m.as_str())),
            None => v.push(owned("测试默认模块")),
        }
    }
    v.push(owned("测试完成"));
    assert(strings_view(v@) =~= test_lines(crate::text::opt_string_view(args.module), args.quiet));
    v
}

} // verus!
