//! The diagnostic probes. Each probe turns the raw text its host commands
//! produced into a report, keeps whatever it discovered for the fix phase,
//! and describes its fix as data for the host to carry out. Running the
//! commands themselves is the host's business; everything here is verified
//! text processing over their output.

use crate::config::Config;
use crate::output::Output;
use crate::text::all_digits;
use crate::text::contains_seq;
use crate::text::contains_str;
use crate::text::contains_string;
use crate::text::decimal_digits;
use crate::text::digits_val;
use crate::text::find_first;
use crate::text::lemma_digits_val_nonneg;
use crate::text::parse_size;
use crate::text::parsed_size;
use crate::text::split_at_tab;
use crate::text::join_with;
use crate::text::joined_with;
use crate::text::line_split;
use crate::text::split_lines;
use crate::text::split_whitespace_vec;
use crate::text::u64_to_string;
use crate::text::views_of;
use crate::text::ws_split;
use vstd::prelude::*;

verus! {

/// The remediation a probe asks for, as data: the host executes it.
pub enum FixPlan {
    /// Run a program with the given arguments; an interactive command runs
    /// attached to the terminal, any other has its output captured.
    RunCommand { program: String, args: Vec<String>, interactive: bool },
    /// Remove these directories, recursively.
    RemoveDirs { dirs: Vec<String> },
    /// No action.
    Nothing,
}

/// The mathematical shape of a [`FixPlan`].
pub enum FixPlanView {
    RunCommand { program: Seq<char>, args: Seq<Seq<char>>, interactive: bool },
    RemoveDirs { dirs: Seq<Seq<char>> },
    Nothing,
}

impl View for FixPlan {
    type V = FixPlanView;

    open spec fn view(&self) -> FixPlanView {
        match self {
            FixPlan::RunCommand { program, args, interactive } => FixPlanView::RunCommand {
                program: program@,
                args: views_of(args@),
                interactive: *interactive,
            },
            FixPlan::RemoveDirs { dirs } => FixPlanView::RemoveDirs { dirs: views_of(dirs@) },
            FixPlan::Nothing => FixPlanView::Nothing,
        }
    }
}

/// The fix-phase capability every probe offers. The check step is not here:
/// each probe's `check` takes the raw text of its own commands, so its shape
/// differs from probe to probe. The engine and the host dispatch over this
/// interface once a check has reported `fix_available`.
pub trait CleanupCommand: Sized {
    /// What [`Self::show_fix`] returns.
    spec fn fix_text_spec(&self, config: &Config) -> Seq<char>;

    /// What [`Self::apply_fix`] returns.
    spec fn fix_plan_spec(&self, config: &Config) -> FixPlanView;

    /// The explanation shown to the user before confirmation. Pure and
    /// non-blocking; by default there is nothing to explain.
    fn show_fix(&self, config: &Config) -> (r: String)
        ensures
            r@ == self.fix_text_spec(config),
    ;

    /// The suggested fix, as an action for the host. By default no action.
    fn apply_fix(&self, config: &Config) -> (r: FixPlan)
        ensures
            r@ == self.fix_plan_spec(config),
    ;
}

/// A log line records an installation of a still-installed package: its
/// third field is the install action and its fourth a package of `installed`.
pub open spec fn entry_eligible(line: Seq<char>, installed: Seq<Seq<char>>) -> bool {
    let f = ws_split(line);
    f.len() >= 5 && f[2] == "installed"@ && installed.contains(f[3])
}

/// The reported form of one log entry: time, package and version.
pub open spec fn entry_display(line: Seq<char>) -> Seq<char> {
    let f = ws_split(line);
    f[0] + " "@ + f[3] + " "@ + f[4]
}

/// Walks the log newest entry first and reports the latest installation of
/// each still-installed package, packages already reported (`seen`) skipped.
pub open spec fn recent_installs(
    rev_log: Seq<Seq<char>>,
    installed: Seq<Seq<char>>,
    seen: Seq<Seq<char>>,
) -> Seq<Seq<char>>
    decreases rev_log.len(),
{
    if rev_log.len() == 0 {
        Seq::empty()
    } else {
        let line = rev_log[0];
        let rest = rev_log.drop_first();
        if entry_eligible(line, installed) && !seen.contains(ws_split(line)[3]) {
            seq![entry_display(line)] + recent_installs(
                rest,
                installed,
                seen.push(ws_split(line)[3]),
            )
        } else {
            recent_installs(rest, installed, seen)
        }
    }
}

/// Reports the most recently installed packages, newest first: package log
/// entries of packages still explicitly installed, each package once.
pub struct LastInstalled;

impl LastInstalled {
    pub fn new() -> (p: LastInstalled) {
        LastInstalled
    }

    /// Digests the list of explicitly installed packages (one per line) and
    /// the package log, and reports the latest installation of each package
    /// still installed, newest first, up to the configured cap.
    pub fn check(&mut self, installed_listing: &str, log: &str, config: &Config) -> (out: Output)
        ensures
            out.title@ == "Last "@ + decimal_digits(config.max_packages as int)
                + " explicitly installed packages"@,
            out.content@ == joined_with(
                capped(
                    recent_installs(
                        line_split(log@).reverse(),
                        line_split(installed_listing@),
                        Seq::empty(),
                    ),
                    config.max_packages as int,
                ),
                "\n"@,
            ),
            out.fix_available == false,
    {
        let installed = split_lines(installed_listing);
        let log_lines = split_lines(log);
        let installed_word = "installed".to_owned();
        let mut results: Vec<String> = Vec::new();
        let mut seen: Vec<String> = Vec::new();
        let n = log_lines.len();
        let ghost rev = views_of(log_lines@).reverse();
        let ghost inst = views_of(installed@);
        let mut i: usize = 0;
        proof {
            assert(rev.skip(0) =~~= rev);
            assert(views_of(results@) =~= Seq::<Seq<char>>::empty());
            assert(views_of(seen@) =~= Seq::<Seq<char>>::empty());
        }
        while i < n
            invariant
                i <= n,
                n == log_lines@.len(),
                inst == views_of(installed@),
                rev == views_of(log_lines@).reverse(),
                rev.len() == n,
                recent_installs(rev, inst, Seq::empty()) == views_of(results@) + recent_installs(
                    rev.skip(i as int),
                    inst,
                    views_of(seen@),
                ),
                installed_word@ == "installed"@,
            decreases n - i,
        {
            let idx = n - 1 - i;
            let fields = split_whitespace_vec(log_lines[idx].as_str());
            proof {
                assert(rev[i as int] == views_of(log_lines@)[idx as int]);
                assert(rev.skip(i as int)[0] == rev[i as int]);
                assert(rev.skip(i as int).drop_first() =~~= rev.skip(i + 1));
            }
            let ghost line = rev[i as int];
            let eligible = fields.len() >= 5 && fields[2].eq(&installed_word) && contains_string(
                &installed,
                &fields[3],
            ) && !contains_string(&seen, &fields[3]);
            if eligible {
                proof {
                    assert(entry_eligible(line, inst));
                    assert(!views_of(seen@).contains(ws_split(line)[3]));
                }
                let mut disp = fields[0].clone();
                disp.append(" ");
                disp.append(fields[3].as_str());
                disp.append(" ");
                disp.append(fields[4].as_str());
                proof {
                    assert(disp@ =~= entry_display(line));
                }
                let ghost old_results = views_of(results@);
                let ghost old_seen = views_of(seen@);
                results.push(disp);
                seen.push(fields[3].clone());
                proof {
                    assert(views_of(results@) =~~= old_results.push(entry_display(line)));
                    assert(views_of(seen@) =~~= old_seen.push(ws_split(line)[3]));
                    assert(old_results.push(entry_display(line)) =~~= old_results + seq![
                        entry_display(line),
                    ]);
                    assert((old_results + seq![entry_display(line)]) + recent_installs(
                        rev.skip(i + 1),
                        inst,
                        views_of(seen@),
                    ) =~~= old_results + (seq![entry_display(line)] + recent_installs(
                        rev.skip(i + 1),
                        inst,
                        old_seen.push(ws_split(line)[3]),
                    )));
                }
            } else {
                proof {
                    assert(!(entry_eligible(line, inst) && !views_of(seen@).contains(
                        ws_split(line)[3],
                    )));
                }
            }
            i = i + 1;
        }
        proof {
            assert(rev.skip(n as int) =~~= Seq::<Seq<char>>::empty());
            assert(views_of(results@) + recent_installs(rev.skip(n as int), inst, views_of(seen@))
                =~~= views_of(results@));
        }
        let ghost full = views_of(results@);
        results.truncate(config.max_packages);
        proof {
            assert(views_of(results@) =~~= capped(full, config.max_packages as int));
        }
        let content = join_with(&results, "\n");
        let mut title = "Last ".to_owned();
        let num = u64_to_string(config.max_packages as u64);
        title.append(num.as_str());
        title.append(" explicitly installed packages");
        proof {
            assert(title@ =~= "Last "@ + decimal_digits(config.max_packages as int)
                + " explicitly installed packages"@);
        }
        Output::new(title, content, false)
    }
}

impl CleanupCommand for LastInstalled {
    open spec fn fix_text_spec(&self, config: &Config) -> Seq<char> {
        Seq::empty()
    }

    open spec fn fix_plan_spec(&self, config: &Config) -> FixPlanView {
        FixPlanView::Nothing
    }

    fn show_fix(&self, config: &Config) -> (r: String)
        ensures
            r@ == self.fix_text_spec(config),
    {
        String::new()
    }

    fn apply_fix(&self, config: &Config) -> (r: FixPlan)
        ensures
            r@ == self.fix_plan_spec(config),
    {
        FixPlan::Nothing
    }
}

/// Lists orphan packages: installed as dependencies, required by nothing.
/// The check keeps the package names; the fix removes those packages.
pub struct OrphanPackages {
    pub pkgs: Vec<String>,
}

impl OrphanPackages {
    pub fn new() -> (p: OrphanPackages)
        ensures
            p.pkgs@.len() == 0,
    {
        OrphanPackages { pkgs: Vec::new() }
    }

    /// Digests the orphan listing (one package per line). An empty listing
    /// renders as an explicit placeholder rather than a blank body.
    pub fn check(&mut self, listing: &str) -> (out: Output)
        ensures
            views_of(final(self).pkgs@) == line_split(listing@),
            out.title@ == "Orphan packages"@,
            out.content@ == if listing@.len() == 0 {
                "(none)"@
            } else {
                listing@
            },
            out.fix_available == (line_split(listing@).len() > 0),
    {
        self.pkgs = split_lines(listing);
        let content = if listing.is_empty() {
            "(none)".to_owned()
        } else {
            listing.to_owned()
        };
        let fix_available = self.pkgs.len() > 0;
        Output::new("Orphan packages".to_owned(), content, fix_available)
    }
}

impl CleanupCommand for OrphanPackages {
    open spec fn fix_text_spec(&self, config: &Config) -> Seq<char> {
        "This fix will run the command:\n"@ + "  yay -Rns --noconfirm "@ + joined_with(
            views_of(self.pkgs@),
            " "@,
        ) + "\n"@
    }

    open spec fn fix_plan_spec(&self, config: &Config) -> FixPlanView {
        FixPlanView::RunCommand {
            program: "yay"@,
            args: seq!["-Rns"@, "--noconfirm"@] + views_of(self.pkgs@),
            interactive: false,
        }
    }

    fn show_fix(&self, config: &Config) -> (r: String)
        ensures
            r@ == self.fix_text_spec(config),
    {
        let joined = join_with(&self.pkgs, " ");
        let mut r = "This fix will run the command:\n".to_owned();
        r.append("  yay -Rns --noconfirm ");
        r.append(joined.as_str());
        r.append("\n");
        proof {
            assert(r@ =~= self.fix_text_spec(config));
        }
        r
    }

    fn apply_fix(&self, config: &Config) -> (r: FixPlan)
        ensures
            r@ == self.fix_plan_spec(config),
    {
        let mut args: Vec<String> = Vec::new();
        args.push("-Rns".to_owned());
        args.push("--noconfirm".to_owned());
        let mut i: usize = 0;
        while i < self.pkgs.len()
            invariant
                i <= self.pkgs@.len(),
                views_of(args@) =~= seq!["-Rns"@, "--noconfirm"@] + views_of(
                    self.pkgs@.take(i as int),
                ),
            decreases self.pkgs@.len() - i,
        {
            let ghost prev = views_of(args@);
            args.push(self.pkgs[i].clone());
            proof {
                assert(views_of(args@) =~~= prev.push(self.pkgs@[i as int]@));
                assert(self.pkgs@.take(i + 1) =~= self.pkgs@.take(i as int).push(
                    self.pkgs@[i as int],
                ));
                assert(prev.push(self.pkgs@[i as int]@) =~~= seq!["-Rns"@, "--noconfirm"@]
                    + views_of(self.pkgs@.take(i + 1)));
            }
            i = i + 1;
        }
        proof {
            assert(self.pkgs@.take(self.pkgs@.len() as int) =~= self.pkgs@);
            assert(views_of(args@) =~~= seq!["-Rns"@, "--noconfirm"@] + views_of(self.pkgs@));
        }
        FixPlan::RunCommand { program: "yay".to_owned(), args, interactive: false }
    }
}

/// Checking is free of observable effects in this library: every probe's
/// check contract pins its whole report — and any state the probe retains —
/// to a function of the raw input text alone, so checking twice over an
/// unchanged environment reports the same thing twice. Stated here for the
/// probe that retains state; the other probes' contracts pin their reports
/// the same way.
pub proof fn lemma_check_idempotent(
    listing: Seq<char>,
    first: Output,
    first_pkgs: Seq<Seq<char>>,
    second: Output,
    second_pkgs: Seq<Seq<char>>,
)
    requires
        first_pkgs == line_split(listing),
        first.content@ == if listing.len() == 0 {
            "(none)"@
        } else {
            listing
        },
        first.fix_available == (line_split(listing).len() > 0),
        second_pkgs == line_split(listing),
        second.content@ == if listing.len() == 0 {
            "(none)"@
        } else {
            listing
        },
        second.fix_available == (line_split(listing).len() > 0),
    ensures
        first_pkgs == second_pkgs,
        first.content@ == second.content@,
        first.fix_available == second.fix_available,
{
}

/// Reports what cleaning the package cache would discard.
pub struct Paccache;

impl Paccache {
    pub fn new() -> (p: Paccache) {
        Paccache
    }

    /// Digests the dry-run listing: a single line means nothing to clean.
    pub fn check(&mut self, listing: &str) -> (out: Output)
        ensures
            out.title@ == "Cache cleaning"@,
            out.content@ == listing@,
            out.fix_available == (line_split(listing@).len() != 1),
    {
        let l = split_lines(listing);
        let fix_available = l.len() != 1;
        Output::new("Cache cleaning".to_owned(), listing.to_owned(), fix_available)
    }
}

impl CleanupCommand for Paccache {
    open spec fn fix_text_spec(&self, config: &Config) -> Seq<char> {
        Seq::empty()
    }

    open spec fn fix_plan_spec(&self, config: &Config) -> FixPlanView {
        FixPlanView::Nothing
    }

    fn show_fix(&self, config: &Config) -> (r: String)
        ensures
            r@ == self.fix_text_spec(config),
    {
        String::new()
    }

    fn apply_fix(&self, config: &Config) -> (r: FixPlan)
        ensures
            r@ == self.fix_plan_spec(config),
    {
        FixPlan::Nothing
    }
}

/// The trash can be emptied exactly when its reported size is not zero.
pub open spec fn trash_is_empty(usage: Seq<char>) -> bool {
    let toks = ws_split(usage);
    toks.len() > 0 && toks[0] == "0"@
}

/// Reports the size of the user's trash directory; the fix empties it.
pub struct TrashSize;

impl TrashSize {
    pub fn new() -> (p: TrashSize) {
        TrashSize
    }

    /// Digests a disk-usage summary line: a leading size field of `0` means
    /// the trash is already empty and there is nothing to fix.
    pub fn check(&mut self, usage: &str) -> (out: Output)
        ensures
            out.title@ == "Trash size"@,
            out.content@ == usage@,
            out.fix_available == !trash_is_empty(usage@),
    {
        let toks = split_whitespace_vec(usage);
        let zero = "0".to_owned();
        let empty_trash = toks.len() > 0 && toks[0].eq(&zero);
        Output::new("Trash size".to_owned(), usage.to_owned(), !empty_trash)
    }
}

impl CleanupCommand for TrashSize {
    open spec fn fix_text_spec(&self, config: &Config) -> Seq<char> {
        "This fix will run the command 'trash-empty'\n"@
    }

    open spec fn fix_plan_spec(&self, config: &Config) -> FixPlanView {
        FixPlanView::RunCommand { program: "trash-empty"@, args: Seq::empty(), interactive: false }
    }

    fn show_fix(&self, config: &Config) -> (r: String)
        ensures
            r@ == self.fix_text_spec(config),
    {
        "This fix will run the command 'trash-empty'\n".to_owned()
    }

    fn apply_fix(&self, config: &Config) -> (r: FixPlan)
        ensures
            r@ == self.fix_plan_spec(config),
    {
        let args: Vec<String> = Vec::new();
        proof {
            assert(views_of(args@) =~= Seq::<Seq<char>>::empty());
        }
        FixPlan::RunCommand { program: "trash-empty".to_owned(), args, interactive: false }
    }
}

/// The lines of a development-update listing that name a development package.
pub open spec fn devel_lines(ls: Seq<Seq<char>>) -> Seq<Seq<char>>
    decreases ls.len(),
{
    if ls.len() == 0 {
        Seq::empty()
    } else {
        (if contains_seq(ls[0], "devel/"@) {
            seq![ls[0]]
        } else {
            Seq::empty()
        }) + devel_lines(ls.drop_first())
    }
}

/// Reports pending updates of development packages; the fix installs them.
pub struct DevUpdates;

impl DevUpdates {
    pub fn new() -> (p: DevUpdates) {
        DevUpdates
    }

    /// Digests a dry-run update listing, keeping only the lines about
    /// development packages. No such line renders as a placeholder.
    pub fn check(&mut self, updates: &str) -> (out: Output)
        ensures
            out.title@ == "Developer updates"@,
            out.content@ == if devel_lines(line_split(updates@)).len() == 0 {
                "(none)"@
            } else {
                joined_with(devel_lines(line_split(updates@)), "\n"@)
            },
            out.fix_available == (devel_lines(line_split(updates@)).len() > 0),
    {
        let all = split_lines(updates);
        let mut matching: Vec<String> = Vec::new();
        let ghost allv = views_of(all@);
        let mut i: usize = 0;
        proof {
            assert(views_of(matching@) =~= Seq::<Seq<char>>::empty());
            assert(allv.skip(0) =~= allv);
        }
        while i < all.len()
            invariant
                i <= all@.len(),
                allv == views_of(all@),
                devel_lines(allv) == views_of(matching@) + devel_lines(allv.skip(i as int)),
            decreases all@.len() - i,
        {
            proof {
                assert(allv.skip(i as int)[0] == allv[i as int]);
                assert(allv.skip(i as int).drop_first() =~~= allv.skip(i + 1));
            }
            if contains_str(all[i].as_str(), "devel/") {
                let ghost old_views = views_of(matching@);
                matching.push(all[i].clone());
                proof {
                    assert(views_of(matching@) =~~= old_views.push(allv[i as int]));
                    assert(old_views.push(allv[i as int]) =~~= old_views + seq![allv[i as int]]);
                    assert((old_views + seq![allv[i as int]]) + devel_lines(allv.skip(i + 1))
                        =~~= old_views + (seq![allv[i as int]] + devel_lines(allv.skip(i + 1))));
                }
            }
            i = i + 1;
        }
        proof {
            assert(allv.skip(i as int) =~= Seq::<Seq<char>>::empty());
            assert(views_of(matching@) + devel_lines(allv.skip(i as int)) =~~= views_of(
                matching@,
            ));
        }
        let fix_available = matching.len() > 0;
        let content = if matching.len() == 0 {
            "(none)".to_owned()
        } else {
            join_with(&matching, "\n")
        };
        Output::new("Developer updates".to_owned(), content, fix_available)
    }
}

impl CleanupCommand for DevUpdates {
    open spec fn fix_text_spec(&self, config: &Config) -> Seq<char> {
        "This fix will run the command 'yay -Syu --devel'\n"@
    }

    open spec fn fix_plan_spec(&self, config: &Config) -> FixPlanView {
        FixPlanView::RunCommand { program: "yay"@, args: seq!["-Syu"@, "--devel"@], interactive: true }
    }

    fn show_fix(&self, config: &Config) -> (r: String)
        ensures
            r@ == self.fix_text_spec(config),
    {
        "This fix will run the command 'yay -Syu --devel'\n".to_owned()
    }

    fn apply_fix(&self, config: &Config) -> (r: FixPlan)
        ensures
            r@ == self.fix_plan_spec(config),
    {
        let mut args: Vec<String> = Vec::new();
        args.push("-Syu".to_owned());
        args.push("--devel".to_owned());
        proof {
            assert(views_of(args@) =~~= seq!["-Syu"@, "--devel"@]);
        }
        FixPlan::RunCommand { program: "yay".to_owned(), args, interactive: true }
    }
}

/// Counts editor swap files; the fix removes the swap directory.
pub struct NeovimSwapFiles {
    pub swap_dir: String,
}

impl NeovimSwapFiles {
    pub fn new() -> (p: NeovimSwapFiles)
        ensures
            p.swap_dir@.len() == 0,
    {
        NeovimSwapFiles { swap_dir: String::new() }
    }

    /// Records the swap directory and reports how many files it holds.
    pub fn check(&mut self, swap_dir: String, count: u64) -> (out: Output)
        ensures
            final(self).swap_dir == swap_dir,
            out.title@ == "NeoVim swap files"@,
            out.content@ == decimal_digits(count as int) + " files"@,
            out.fix_available == (count > 0),
    {
        self.swap_dir = swap_dir;
        let content = u64_to_string(count).concat(" files");
        Output::new("NeoVim swap files".to_owned(), content, count > 0)
    }
}

impl CleanupCommand for NeovimSwapFiles {
    open spec fn fix_text_spec(&self, config: &Config) -> Seq<char> {
        "This fix will remove the directory '"@ + self.swap_dir@ + "'\n"@
    }

    open spec fn fix_plan_spec(&self, config: &Config) -> FixPlanView {
        FixPlanView::RemoveDirs { dirs: seq![self.swap_dir@] }
    }

    fn show_fix(&self, config: &Config) -> (r: String)
        ensures
            r@ == self.fix_text_spec(config),
    {
        let mut r = "This fix will remove the directory '".to_owned();
        r.append(self.swap_dir.as_str());
        r.append("'\n");
        proof {
            assert(r@ =~= self.fix_text_spec(config));
        }
        r
    }

    fn apply_fix(&self, config: &Config) -> (r: FixPlan)
        ensures
            r@ == self.fix_plan_spec(config),
    {
        let mut dirs: Vec<String> = Vec::new();
        dirs.push(self.swap_dir.clone());
        proof {
            assert(views_of(dirs@) =~~= seq![self.swap_dir@]);
        }
        FixPlan::RemoveDirs { dirs }
    }
}

/// The first `cap` entries of a listing; the whole listing when it is short.
pub open spec fn capped(v: Seq<Seq<char>>, cap: int) -> Seq<Seq<char>> {
    if cap <= v.len() {
        v.take(cap)
    } else {
        v
    }
}

/// Reports the disk usage of the home directory's entries, largest first.
pub struct DiskUsage;

impl DiskUsage {
    pub fn new() -> (p: DiskUsage) {
        DiskUsage
    }

    /// Digests the sorted usage listing, keeping the configured number of
    /// leading entries.
    pub fn check(&mut self, usage: &str, config: &Config) -> (out: Output)
        ensures
            out.title@ == "Disk usage distribution in home directory"@,
            out.content@ == joined_with(
                capped(line_split(usage@), config.max_disk_usage as int),
                "\n"@,
            ),
            out.fix_available == false,
    {
        let mut l = split_lines(usage);
        let ghost full = views_of(l@);
        l.truncate(config.max_disk_usage);
        proof {
            assert(views_of(l@) =~~= capped(full, config.max_disk_usage as int));
        }
        let content = join_with(&l, "\n");
        Output::new("Disk usage distribution in home directory".to_owned(), content, false)
    }
}

impl CleanupCommand for DiskUsage {
    open spec fn fix_text_spec(&self, config: &Config) -> Seq<char> {
        Seq::empty()
    }

    open spec fn fix_plan_spec(&self, config: &Config) -> FixPlanView {
        FixPlanView::Nothing
    }

    fn show_fix(&self, config: &Config) -> (r: String)
        ensures
            r@ == self.fix_text_spec(config),
    {
        String::new()
    }

    fn apply_fix(&self, config: &Config) -> (r: FixPlan)
        ensures
            r@ == self.fix_plan_spec(config),
    {
        FixPlan::Nothing
    }
}

/// A disk-usage line: a size field, one tab, a path.
pub open spec fn line_has_tab(l: Seq<char>) -> bool {
    find_first(l, '\t') >= 0
}

/// The kilobyte count of a disk-usage line: its text before the first tab,
/// parsed as [`parsed_size`] describes.
pub open spec fn du_kb(l: Seq<char>) -> int {
    parsed_size(l.take(find_first(l, '\t')))
}

/// The path of a disk-usage line: everything after the first tab.
pub open spec fn du_path(l: Seq<char>) -> Seq<char> {
    l.skip(find_first(l, '\t') + 1)
}

/// Every line of the report carries a tab separator.
pub open spec fn report_ok(report: Seq<char>) -> bool {
    forall|j: int| 0 <= j < line_split(report).len() ==> line_has_tab(#[trigger] line_split(report)[j])
}

pub open spec fn reports_ok(reports: Seq<Seq<char>>) -> bool {
    forall|i: int| 0 <= i < reports.len() ==> report_ok(#[trigger] reports[i])
}

/// The paths of the lines with a positive size, in order.
pub open spec fn dirs_of_lines(ls: Seq<Seq<char>>) -> Seq<Seq<char>>
    decreases ls.len(),
{
    if ls.len() == 0 {
        Seq::empty()
    } else {
        (if du_kb(ls[0]) > 0 {
            seq![du_path(ls[0])]
        } else {
            Seq::empty()
        }) + dirs_of_lines(ls.drop_first())
    }
}

/// The summed kilobytes of the lines.
pub open spec fn kb_of_lines(ls: Seq<Seq<char>>) -> int
    decreases ls.len(),
{
    if ls.len() == 0 {
        0
    } else {
        du_kb(ls[0]) + kb_of_lines(ls.drop_first())
    }
}

/// The positive-size paths of all reports, in order.
pub open spec fn dirs_of_reports(rs: Seq<Seq<char>>) -> Seq<Seq<char>>
    decreases rs.len(),
{
    if rs.len() == 0 {
        Seq::empty()
    } else {
        dirs_of_lines(line_split(rs[0])) + dirs_of_reports(rs.drop_first())
    }
}

/// The summed kilobytes of all reports.
pub open spec fn kb_of_reports(rs: Seq<Seq<char>>) -> int
    decreases rs.len(),
{
    if rs.len() == 0 {
        0
    } else {
        kb_of_lines(line_split(rs[0])) + kb_of_reports(rs.drop_first())
    }
}

/// Sums too large for the accumulator saturate at its maximum.
pub open spec fn clamp_u64(n: int) -> int {
    if n > u64::MAX {
        u64::MAX as int
    } else {
        n
    }
}

pub proof fn lemma_parsed_size_nonneg(s: Seq<char>)
    ensures
        parsed_size(s) >= 0,
{
    if s.len() > 0 && all_digits(s) && digits_val(s) <= 0x7fffffff {
        lemma_digits_val_nonneg(s);
    }
}

pub proof fn lemma_kb_of_lines_nonneg(ls: Seq<Seq<char>>)
    ensures
        kb_of_lines(ls) >= 0,
    decreases ls.len(),
{
    if ls.len() > 0 {
        lemma_parsed_size_nonneg(ls[0].take(find_first(ls[0], '\t')));
        lemma_kb_of_lines_nonneg(ls.drop_first());
    }
}

pub proof fn lemma_kb_of_reports_nonneg(rs: Seq<Seq<char>>)
    ensures
        kb_of_reports(rs) >= 0,
    decreases rs.len(),
{
    if rs.len() > 0 {
        lemma_kb_of_lines_nonneg(line_split(rs[0]));
        lemma_kb_of_reports_nonneg(rs.drop_first());
    }
}

proof fn lemma_kb_of_lines_push(ls: Seq<Seq<char>>, x: Seq<char>)
    ensures
        kb_of_lines(ls.push(x)) == kb_of_lines(ls) + du_kb(x),
    decreases ls.len(),
{
    if ls.len() == 0 {
        assert(ls.push(x)[0] == x);
        assert(ls.push(x).drop_first() =~~= Seq::<Seq<char>>::empty());
        assert(kb_of_lines(Seq::<Seq<char>>::empty()) == 0);
    } else {
        assert(ls.push(x)[0] == ls[0]);
        assert(ls.push(x).drop_first() =~~= ls.drop_first().push(x));
        lemma_kb_of_lines_push(ls.drop_first(), x);
    }
}

proof fn lemma_dirs_of_lines_push(ls: Seq<Seq<char>>, x: Seq<char>)
    ensures
        dirs_of_lines(ls.push(x)) == dirs_of_lines(ls) + (if du_kb(x) > 0 {
            seq![du_path(x)]
        } else {
            Seq::<Seq<char>>::empty()
        }),
    decreases ls.len(),
{
    let tail = if du_kb(x) > 0 {
        seq![du_path(x)]
    } else {
        Seq::<Seq<char>>::empty()
    };
    if ls.len() == 0 {
        assert(ls.push(x)[0] == x);
        assert(ls.push(x).drop_first() =~~= Seq::<Seq<char>>::empty());
        assert(dirs_of_lines(Seq::<Seq<char>>::empty()) =~~= Seq::<Seq<char>>::empty());
        assert(tail + Seq::<Seq<char>>::empty() =~~= tail);
        assert(Seq::<Seq<char>>::empty() + tail =~~= tail);
    } else {
        assert(ls.push(x)[0] == ls[0]);
        assert(ls.push(x).drop_first() =~~= ls.drop_first().push(x));
        lemma_dirs_of_lines_push(ls.drop_first(), x);
        let head = if du_kb(ls[0]) > 0 {
            seq![du_path(ls[0])]
        } else {
            Seq::<Seq<char>>::empty()
        };
        assert(head + (dirs_of_lines(ls.drop_first()) + tail) =~~= (head + dirs_of_lines(
            ls.drop_first(),
        )) + tail);
    }
}

proof fn lemma_kb_of_reports_push(rs: Seq<Seq<char>>, x: Seq<char>)
    ensures
        kb_of_reports(rs.push(x)) == kb_of_reports(rs) + kb_of_lines(line_split(x)),
    decreases rs.len(),
{
    if rs.len() == 0 {
        assert(rs.push(x)[0] == x);
        assert(rs.push(x).drop_first() =~~= Seq::<Seq<char>>::empty());
        assert(kb_of_reports(Seq::<Seq<char>>::empty()) == 0);
    } else {
        assert(rs.push(x)[0] == rs[0]);
        assert(rs.push(x).drop_first() =~~= rs.drop_first().push(x));
        lemma_kb_of_reports_push(rs.drop_first(), x);
    }
}

proof fn lemma_dirs_of_reports_push(rs: Seq<Seq<char>>, x: Seq<char>)
    ensures
        dirs_of_reports(rs.push(x)) == dirs_of_reports(rs) + dirs_of_lines(line_split(x)),
    decreases rs.len(),
{
    if rs.len() == 0 {
        assert(rs.push(x)[0] == x);
        assert(rs.push(x).drop_first() =~~= Seq::<Seq<char>>::empty());
        assert(dirs_of_reports(Seq::<Seq<char>>::empty()) =~~= Seq::<Seq<char>>::empty());
        assert(dirs_of_lines(line_split(x)) + Seq::<Seq<char>>::empty() =~~= dirs_of_lines(
            line_split(x),
        ));
        assert(Seq::<Seq<char>>::empty() + dirs_of_lines(line_split(x)) =~~= dirs_of_lines(
            line_split(x),
        ));
    } else {
        assert(rs.push(x)[0] == rs[0]);
        assert(rs.push(x).drop_first() =~~= rs.drop_first().push(x));
        lemma_dirs_of_reports_push(rs.drop_first(), x);
        assert(dirs_of_lines(line_split(rs[0])) + (dirs_of_reports(rs.drop_first())
            + dirs_of_lines(line_split(x))) =~~= (dirs_of_lines(line_split(rs[0]))
            + dirs_of_reports(rs.drop_first())) + dirs_of_lines(line_split(x)));
    }
}

/// The bullet list of directories a fix will remove.
pub open spec fn dir_bullets(dirs: Seq<Seq<char>>) -> Seq<char>
    decreases dirs.len(),
{
    if dirs.len() == 0 {
        Seq::empty()
    } else {
        "* "@ + dirs[0] + "\n"@ + dir_bullets(dirs.drop_first())
    }
}

proof fn lemma_dir_bullets_push(v: Seq<Seq<char>>, x: Seq<char>)
    ensures
        dir_bullets(v.push(x)) == dir_bullets(v) + ("* "@ + x + "\n"@),
    decreases v.len(),
{
    if v.len() == 0 {
        assert(v.push(x)[0] == x);
        assert(v.push(x).drop_first() =~~= Seq::<Seq<char>>::empty());
        assert(dir_bullets(Seq::<Seq<char>>::empty()) == Seq::<char>::empty());
        assert("* "@ + x + "\n"@ + Seq::<char>::empty() =~= "* "@ + x + "\n"@);
        assert(Seq::<char>::empty() + ("* "@ + x + "\n"@) =~= "* "@ + x + "\n"@);
    } else {
        assert(v.push(x)[0] == v[0]);
        assert(v.push(x).drop_first() =~~= v.drop_first().push(x));
        lemma_dir_bullets_push(v.drop_first(), x);
        assert("* "@ + v[0] + "\n"@ + (dir_bullets(v.drop_first()) + ("* "@ + x + "\n"@)) =~= ("* "@
            + v[0] + "\n"@ + dir_bullets(v.drop_first())) + ("* "@ + x + "\n"@));
    }
}

/// Measures the build directories of source projects; the fix removes them.
/// Each report lists candidate build directories with their sizes, one
/// project per report.
pub struct RustTarget {
    pub dirs: Vec<String>,
}

impl RustTarget {
    pub fn new() -> (p: RustTarget)
        ensures
            p.dirs@.len() == 0,
    {
        RustTarget { dirs: Vec::new() }
    }

    /// Digests one disk-usage report per project: sums the sizes, keeps the
    /// paths that take space, and reports the total in megabytes. A line
    /// without its tab separator cannot be attributed, so the caller rules
    /// that out beforehand.
    pub fn check(&mut self, reports: &Vec<String>) -> (out: Output)
        requires
            reports_ok(views_of(reports@)),
        ensures
            views_of(final(self).dirs@) == views_of(old(self).dirs@) + dirs_of_reports(
                views_of(reports@),
            ),
            out.title@ == "Size of Rust target directories"@,
            out.content@ == decimal_digits(
                clamp_u64(kb_of_reports(views_of(reports@))) / 1024,
            ) + " MB"@,
            out.fix_available == true,
    {
        let ghost rv = views_of(reports@);
        let ghost dirs0 = views_of(self.dirs@);
        let mut total: u64 = 0;
        let mut r: usize = 0;
        proof {
            assert(rv.take(0) =~~= Seq::<Seq<char>>::empty());
            assert(dirs0 + dirs_of_reports(rv.take(0)) =~~= dirs0);
        }
        while r < reports.len()
            invariant
                r <= reports@.len(),
                rv == views_of(reports@),
                reports_ok(rv),
                total as int == clamp_u64(kb_of_reports(rv.take(r as int))),
                views_of(self.dirs@) == dirs0 + dirs_of_reports(rv.take(r as int)),
            decreases reports@.len() - r,
        {
            let lines = split_lines(reports[r].as_str());
            let ghost lv = views_of(lines@);
            proof {
                assert(rv[r as int] == reports@[r as int]@);
                assert(lv == line_split(rv[r as int]));
                assert(report_ok(rv[r as int]));
                assert(lv.take(0) =~~= Seq::<Seq<char>>::empty());
                assert(views_of(self.dirs@) + dirs_of_lines(lv.take(0)) =~~= views_of(
                    self.dirs@,
                ));
            }
            let ghost dirs_r = views_of(self.dirs@);
            let ghost kb_r = kb_of_reports(rv.take(r as int));
            let mut j: usize = 0;
            while j < lines.len()
                invariant
                    j <= lines@.len(),
                    lv == views_of(lines@),
                    forall|k: int| 0 <= k < lv.len() ==> line_has_tab(#[trigger] lv[k]),
                    total as int == clamp_u64(kb_r + kb_of_lines(lv.take(j as int))),
                    kb_r == clamp_u64(kb_r) || total == u64::MAX,
                    kb_r >= 0,
                    views_of(self.dirs@) == dirs_r + dirs_of_lines(lv.take(j as int)),
                decreases lines@.len() - j,
            {
                let parts = split_at_tab(lines[j].as_str());
                proof {
                    assert(lv[j as int] == lines@[j as int]@);
                }
                let (kb_str, path) = match parts {
                    Some(p) => p,
                    None => {
                        proof {
                            assert(line_has_tab(lv[j as int]));
                        }
                        unreached()
                    },
                };
                let kb = parse_size(kb_str.as_str());
                proof {
                    assert(kb_str@ == lv[j as int].take(find_first(lv[j as int], '\t')));
                    assert(kb as int == du_kb(lv[j as int]));
                    assert(path@ == du_path(lv[j as int]));
                }
                if kb > 0 {
                    let ghost before = views_of(self.dirs@);
                    self.dirs.push(path);
                    proof {
                        assert(views_of(self.dirs@) =~~= before.push(du_path(lv[j as int])));
                    }
                }
                proof {
                    lemma_dirs_of_lines_push(lv.take(j as int), lv[j as int]);
                    assert(lv.take(j + 1) =~~= lv.take(j as int).push(lv[j as int]));
                    if kb > 0 {
                        assert(views_of(self.dirs@) =~~= dirs_r + dirs_of_lines(lv.take(j + 1)));
                    } else {
                        assert(dirs_of_lines(lv.take(j + 1)) =~~= dirs_of_lines(lv.take(j as int)));
                    }
                    lemma_kb_of_lines_push(lv.take(j as int), lv[j as int]);
                    lemma_kb_of_lines_nonneg(lv.take(j as int));
                }
                if total > u64::MAX - kb {
                    total = u64::MAX;
                } else {
                    total = total + kb;
                }
                j = j + 1;
            }
            proof {
                assert(lv.take(lines@.len() as int) =~~= lv);
                lemma_kb_of_reports_push(rv.take(r as int), rv[r as int]);
                lemma_dirs_of_reports_push(rv.take(r as int), rv[r as int]);
                assert(rv.take(r + 1) =~~= rv.take(r as int).push(rv[r as int]));
                assert(views_of(self.dirs@) =~~= dirs0 + dirs_of_reports(rv.take(r + 1)));
            }
            r = r + 1;
        }
        proof {
            assert(rv.take(reports@.len() as int) =~~= rv);
        }
        let content = u64_to_string(total / 1024).concat(" MB");
        Output::new("Size of Rust target directories".to_owned(), content, true)
    }
}

impl CleanupCommand for RustTarget {
    open spec fn fix_text_spec(&self, config: &Config) -> Seq<char> {
        "This fix will remove the following directories:\n"@ + dir_bullets(views_of(self.dirs@))
    }

    open spec fn fix_plan_spec(&self, config: &Config) -> FixPlanView {
        FixPlanView::RemoveDirs { dirs: views_of(self.dirs@) }
    }

    fn show_fix(&self, config: &Config) -> (r: String)
        ensures
            r@ == self.fix_text_spec(config),
    {
        let mut r = "This fix will remove the following directories:\n".to_owned();
        proof {
            assert(views_of(self.dirs@).take(0) =~~= Seq::<Seq<char>>::empty());
            assert(r@ + Seq::<char>::empty() =~= r@);
        }
        let mut i: usize = 0;
        while i < self.dirs.len()
            invariant
                i <= self.dirs@.len(),
                r@ == "This fix will remove the following directories:\n"@ + dir_bullets(
                    views_of(self.dirs@).take(i as int),
                ),
            decreases self.dirs@.len() - i,
        {
            r.append("* ");
            r.append(self.dirs[i].as_str());
            r.append("\n");
            proof {
                let w = views_of(self.dirs@);
                assert(w.take(i + 1) =~~= w.take(i as int).push(w[i as int]));
                lemma_dir_bullets_push(w.take(i as int), w[i as int]);
                assert(r@ =~= "This fix will remove the following directories:\n"@ + dir_bullets(
                    w.take(i + 1),
                ));
            }
            i = i + 1;
        }
        proof {
            assert(views_of(self.dirs@).take(self.dirs@.len() as int) =~~= views_of(self.dirs@));
        }
        r
    }

    fn apply_fix(&self, config: &Config) -> (r: FixPlan)
        ensures
            r@ == self.fix_plan_spec(config),
    {
        let mut dirs: Vec<String> = Vec::new();
        let mut i: usize = 0;
        while i < self.dirs.len()
            invariant
                i <= self.dirs@.len(),
                views_of(dirs@) == views_of(self.dirs@).take(i as int),
            decreases self.dirs@.len() - i,
        {
            let ghost before = views_of(dirs@);
            dirs.push(self.dirs[i].clone());
            proof {
                assert(views_of(dirs@) =~~= before.push(views_of(self.dirs@)[i as int]));
                assert(views_of(self.dirs@).take(i + 1) =~~= views_of(self.dirs@).take(
                    i as int,
                ).push(views_of(self.dirs@)[i as int]));
            }
            i = i + 1;
        }
        proof {
            assert(views_of(self.dirs@).take(self.dirs@.len() as int) =~~= views_of(self.dirs@));
        }
        FixPlan::RemoveDirs { dirs }
    }
}

} // verus!
