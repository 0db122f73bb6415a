use tidyup::config::Config;
use tidyup::output::Output;
use tidyup::probes::CleanupCommand;
use tidyup::probes::DevUpdates;
use tidyup::probes::DiskUsage;
use tidyup::probes::FixPlan;
use tidyup::probes::LastInstalled;
use tidyup::probes::NeovimSwapFiles;
use tidyup::probes::OrphanPackages;
use tidyup::probes::Paccache;
use tidyup::probes::RustTarget;
use tidyup::probes::TrashSize;

fn conf(apply: bool) -> Config {
    Config::new(apply, 10, 10)
}

#[test]
fn render_highlights_and_trims() {
    let out = Output::new("T".to_string(), "  body \n".to_string(), true);
    assert_eq!(out.render(), "\u{1b}[36;1mT (fix available):\u{1b}[0m\nbody\n");
    let plain = Output::new("T".to_string(), "x".to_string(), false);
    assert_eq!(plain.render(), "\u{1b}[36;1mT:\u{1b}[0m\nx\n");
}

#[test]
fn orphans_empty_listing() {
    let mut p = OrphanPackages::new();
    let out = p.check("");
    assert_eq!(out.title, "Orphan packages");
    assert_eq!(out.content, "(none)");
    assert!(!out.fix_available);
    assert!(p.pkgs.is_empty());
}

#[test]
fn orphans_found() {
    let mut p = OrphanPackages::new();
    let out = p.check("liba\nlibb\n");
    assert_eq!(out.content, "liba\nlibb\n");
    assert!(out.fix_available);
    assert_eq!(p.pkgs, vec!["liba", "libb"]);
    let text = p.show_fix(&conf(true));
    assert_eq!(text, "This fix will run the command:\n  yay -Rns --noconfirm liba libb\n");
    match p.apply_fix(&conf(true)) {
        FixPlan::RunCommand { program, args, interactive } => {
            assert_eq!(program, "yay");
            assert_eq!(args, vec!["-Rns", "--noconfirm", "liba", "libb"]);
            assert!(!interactive);
        }
        _ => panic!("expected a command"),
    }
}

#[test]
fn orphans_check_is_idempotent() {
    let listing = "liba\nlibb\n";
    let mut p1 = OrphanPackages::new();
    let mut p2 = OrphanPackages::new();
    let out1 = p1.check(listing);
    let out2 = p2.check(listing);
    assert_eq!(out1.title, out2.title);
    assert_eq!(out1.content, out2.content);
    assert_eq!(out1.fix_available, out2.fix_available);
    assert_eq!(p1.pkgs, p2.pkgs);
}

#[test]
fn paccache_single_line_means_clean() {
    let mut p = Paccache::new();
    let out = p.check("==> no candidate packages found for pruning\n");
    assert_eq!(out.title, "Cache cleaning");
    assert!(!out.fix_available);
    let out = p.check("pkg-1.0.tar.zst\n==> 1 package removed (disk space saved: 1 MiB)\n");
    assert!(out.fix_available);
}

#[test]
fn trash_size_zero_needs_no_fix() {
    let mut p = TrashSize::new();
    let out = p.check("0\t/home/user/.local/share/Trash\n");
    assert_eq!(out.title, "Trash size");
    assert_eq!(out.content, "0\t/home/user/.local/share/Trash\n");
    assert!(!out.fix_available);
    let out = p.check("4.0K\t/home/user/.local/share/Trash\n");
    assert!(out.fix_available);
    let out = p.check("");
    assert!(out.fix_available);
    assert_eq!(p.show_fix(&conf(true)), "This fix will run the command 'trash-empty'\n");
    match p.apply_fix(&conf(true)) {
        FixPlan::RunCommand { program, args, interactive } => {
            assert_eq!(program, "trash-empty");
            assert!(args.is_empty());
            assert!(!interactive);
        }
        _ => panic!("expected a command"),
    }
}

#[test]
fn dev_updates_filters_devel_lines() {
    let mut p = DevUpdates::new();
    let out = p.check("core/foo 1.0 -> 1.1\ndevel/bar r10 -> r11\naur devel/baz 1 -> 2\n");
    assert_eq!(out.title, "Developer updates");
    assert_eq!(out.content, "devel/bar r10 -> r11\naur devel/baz 1 -> 2");
    assert!(out.fix_available);
    let out = p.check("core/foo 1.0 -> 1.1\n");
    assert_eq!(out.content, "(none)");
    assert!(!out.fix_available);
    let out = p.check("");
    assert_eq!(out.content, "(none)");
    assert!(!out.fix_available);
    assert_eq!(p.show_fix(&conf(true)), "This fix will run the command 'yay -Syu --devel'\n");
    match p.apply_fix(&conf(true)) {
        FixPlan::RunCommand { program, args, interactive } => {
            assert_eq!(program, "yay");
            assert_eq!(args, vec!["-Syu", "--devel"]);
            assert!(interactive);
        }
        _ => panic!("expected a command"),
    }
}

#[test]
fn swap_files_counted() {
    let mut p = NeovimSwapFiles::new();
    let out = p.check("/home/user/.local/share/nvim/swap".to_string(), 3);
    assert_eq!(out.title, "NeoVim swap files");
    assert_eq!(out.content, "3 files");
    assert!(out.fix_available);
    assert_eq!(
        p.show_fix(&conf(true)),
        "This fix will remove the directory '/home/user/.local/share/nvim/swap'\n"
    );
    match p.apply_fix(&conf(true)) {
        FixPlan::RemoveDirs { dirs } => {
            assert_eq!(dirs, vec!["/home/user/.local/share/nvim/swap"]);
        }
        _ => panic!("expected directory removal"),
    }
    let out = p.check("/home/user/.local/share/nvim/swap".to_string(), 0);
    assert_eq!(out.content, "0 files");
    assert!(!out.fix_available);
}

#[test]
fn disk_usage_keeps_leading_entries() {
    let mut p = DiskUsage::new();
    let out = p.check("10G\t/home/u/video\n5G\t/home/u/src\n1G\t/home/u/docs\n", &Config::new(false, 10, 2));
    assert_eq!(out.title, "Disk usage distribution in home directory");
    assert_eq!(out.content, "10G\t/home/u/video\n5G\t/home/u/src");
    assert!(!out.fix_available);
    let out = p.check("10G\t/home/u/video\n", &Config::new(false, 10, 2));
    assert_eq!(out.content, "10G\t/home/u/video");
}

#[test]
fn last_installed_reports_newest_first_once_each() {
    let installed = "alpha\nbeta\n";
    let log = "[2021-01-01] [ALPM] installed alpha (1.0-1)\n\
               [2021-01-02] [ALPM] upgraded beta (1.0-1 -> 1.1-1)\n\
               [2021-01-03] [ALPM] installed beta (1.1-1)\n\
               [2021-01-04] [ALPM] installed gamma (2.0-1)\n\
               [2021-01-05] [ALPM] installed alpha (1.2-1)\n";
    let mut p = LastInstalled::new();
    let out = p.check(installed, log, &conf(false));
    assert_eq!(out.title, "Last 10 explicitly installed packages");
    assert_eq!(out.content, "[2021-01-05] alpha (1.2-1)\n[2021-01-03] beta (1.1-1)");
    assert!(!out.fix_available);
}

#[test]
fn last_installed_respects_cap() {
    let installed = "alpha\nbeta\n";
    let log = "[2021-01-03] [ALPM] installed beta (1.1-1)\n\
               [2021-01-05] [ALPM] installed alpha (1.2-1)\n";
    let mut p = LastInstalled::new();
    let out = p.check(installed, log, &Config::new(false, 1, 10));
    assert_eq!(out.title, "Last 1 explicitly installed packages");
    assert_eq!(out.content, "[2021-01-05] alpha (1.2-1)");
}

#[test]
fn last_installed_skips_malformed_lines() {
    let installed = "alpha\n";
    let log = "short line\n[2021-01-05] [ALPM] installed alpha (1.2-1)\n";
    let mut p = LastInstalled::new();
    let out = p.check(installed, log, &conf(false));
    assert_eq!(out.content, "[2021-01-05] alpha (1.2-1)");
}

#[test]
fn rust_targets_summed_and_collected() {
    let reports = vec![
        "1024\t/home/u/proj/target\n0\t/home/u/proj/empty\n".to_string(),
        "2048\t/home/u/two/target".to_string(),
    ];
    let mut p = RustTarget::new();
    let out = p.check(&reports);
    assert_eq!(out.title, "Size of Rust target directories");
    assert_eq!(out.content, "3 MB");
    assert!(out.fix_available);
    assert_eq!(p.dirs, vec!["/home/u/proj/target", "/home/u/two/target"]);
    assert_eq!(
        p.show_fix(&conf(true)),
        "This fix will remove the following directories:\n\
         * /home/u/proj/target\n* /home/u/two/target\n"
    );
    match p.apply_fix(&conf(true)) {
        FixPlan::RemoveDirs { dirs } => {
            assert_eq!(dirs, vec!["/home/u/proj/target", "/home/u/two/target"]);
        }
        _ => panic!("expected directory removal"),
    }
}

#[test]
fn rust_targets_unparsable_sizes_count_nothing() {
    let reports = vec!["abc\t/home/u/odd\n512\t/home/u/proj/target\n".to_string()];
    let mut p = RustTarget::new();
    let out = p.check(&reports);
    assert_eq!(out.content, "0 MB");
    assert_eq!(p.dirs, vec!["/home/u/proj/target"]);
}

#[test]
fn rust_targets_empty_reports() {
    let mut p = RustTarget::new();
    let out = p.check(&Vec::new());
    assert_eq!(out.content, "0 MB");
    assert!(out.fix_available);
    assert!(p.dirs.is_empty());
}
