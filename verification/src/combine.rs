//! The combiner core: configuration, version enforcement, the component
//! merge with its collision policy, and the plans handed to the
//! surrounding binary and the downstream collaborators.

use vstd::prelude::*;
use vstd::string::*;
use crate::paths::{path_join, spec_join, spec_package_id, package_id};
use crate::text::{
    spec_trim, spec_parse_u64, spec_entries, trim, parse_u64, split_entries, space_run,
    space_run_back, digits_val, digit_val,
};
use crate::RUST_INSTALLER_VERSION;

verus! {

/// Whether a `rust-installer-version` file's text names the supported
/// format version: trimmed, it must parse as that exact integer.
pub open spec fn version_ok(s: Seq<char>) -> bool {
    spec_parse_u64(spec_trim(s)) == Some(RUST_INSTALLER_VERSION)
}

/// The component names a `components` file's text declares, in order:
/// its whitespace-separated words.
pub open spec fn spec_components(s: Seq<char>) -> Seq<Seq<char>> {
    spec_entries(s, true)
}

/// No two entries of `xs` are equal.
pub open spec fn distinct_seq(xs: Seq<Seq<char>>) -> bool {
    forall|i: int, j: int| 0 <= i < j < xs.len() ==> xs[i] != xs[j]
}

/// The incoming component names are pairwise distinct and none of them
/// is already merged.
pub open spec fn fresh_for(merged: Seq<Seq<char>>, comps: Seq<Seq<char>>) -> bool {
    &&& distinct_seq(comps)
    &&& forall|i: int| 0 <= i < comps.len() ==> !merged.contains(comps[i])
}

/// `comps[k]` is the first declared component whose name is already
/// merged or repeats an earlier declaration in the same archive.
pub open spec fn first_collision(merged: Seq<Seq<char>>, comps: Seq<Seq<char>>, k: int) -> bool {
    &&& 0 <= k < comps.len()
    &&& merged.contains(comps[k]) || comps.take(k).contains(comps[k])
    &&& forall|m: int| 0 <= m < k ==> !merged.contains(#[trigger] comps[m]) && !comps.take(
        m,
    ).contains(comps[m])
}

/// The effect of merging one archive, given the merged names so far and
/// the text of the archive's two metadata files: nothing if the version
/// is unsupported or a declared component collides with an already merged
/// one (or repeats within the archive), else the merged names extended by
/// the archive's components in declared order.
pub open spec fn spec_step(
    merged: Seq<Seq<char>>,
    version_text: Seq<char>,
    components_text: Seq<char>,
) -> Option<Seq<Seq<char>>> {
    if !version_ok(version_text) {
        None
    } else if !fresh_for(merged, spec_components(components_text)) {
        None
    } else {
        Some(merged + spec_components(components_text))
    }
}

/// The merged `components` manifest text: each name followed by a newline,
/// in merge order.
pub open spec fn manifest_of(names: Seq<Seq<char>>) -> Seq<char>
    decreases names.len(),
{
    if names.len() == 0 {
        Seq::empty()
    } else {
        names[0] + seq!['\n'] + manifest_of(names.drop_first())
    }
}

/// Checks a `rust-installer-version` file's text against the supported
/// format version.
pub fn version_matches(text: &str) -> (r: bool)
    ensures
        r == version_ok(text@),
{
    let trimmed = trim(text);
    match parse_u64(trimmed.as_str()) {
        Some(v) => v == RUST_INSTALLER_VERSION,
        None => false,
    }
}

/// The component names declared by a `components` file's text.
pub fn component_list(text: &str) -> (r: Vec<String>)
    ensures
        r.deep_view() == spec_components(text@),
{
    split_entries(text, true)
}

/// The combiner's configuration, fully resolved before a run.
pub struct Combiner {
    /// The name of the product, for display.
    pub product_name: String,
    /// The name of the package, tarball.
    pub package_name: String,
    /// The directory under lib/ where the manifest lives.
    pub rel_manifest_dir: String,
    /// The string to print after successful installation.
    pub success_message: String,
    /// Places to look for legacy manifests to uninstall.
    pub legacy_manifest_dirs: String,
    /// Installers to combine, as a comma-separated list of archive paths.
    pub input_tarballs: String,
    /// Directory containing files that should not be installed.
    pub non_installed_overlay: String,
    /// The directory to do temporary work.
    pub work_dir: String,
    /// The location to put the final image and tarball.
    pub output_dir: String,
}

impl Default for Combiner {
    /// The documented default configuration.
    fn default() -> (r: Self)
        ensures
            r.product_name@ == "Product"@,
            r.package_name@ == "package"@,
            r.rel_manifest_dir@ == "packagelib"@,
            r.success_message@ == "Installed."@,
            r.legacy_manifest_dirs@ == ""@,
            r.input_tarballs@ == ""@,
            r.non_installed_overlay@ == ""@,
            r.work_dir@ == "./workdir"@,
            r.output_dir@ == "./dist"@,
    {
        Combiner {
            product_name: "Product".to_owned(),
            package_name: "package".to_owned(),
            rel_manifest_dir: "packagelib".to_owned(),
            success_message: "Installed.".to_owned(),
            legacy_manifest_dirs: "".to_owned(),
            input_tarballs: "".to_owned(),
            non_installed_overlay: "".to_owned(),
            work_dir: "./workdir".to_owned(),
            output_dir: "./dist".to_owned(),
        }
    }
}

impl Combiner {
    /// The input archive paths, in the order given: the comma-separated
    /// entries of `input_tarballs`, trimmed, with blank entries dropped.
    pub fn tarball_list(&self) -> (r: Vec<String>)
        ensures
            r.deep_view() == spec_entries(self.input_tarballs@, false),
    {
        split_entries(self.input_tarballs.as_str(), false)
    }

    /// The merged package directory: `work_dir/package_name`.
    pub fn package_dir(&self) -> (r: String)
        ensures
            r@ == spec_join(self.work_dir@, self.package_name@),
    {
        path_join(self.work_dir.as_str(), self.package_name.as_str())
    }

    /// The overlay directory whose contents are copied, not moved, into
    /// the merged package root — or nothing, when no overlay is
    /// configured. Overlay files are never recorded in the manifest.
    pub fn overlay_source(&self) -> (r: Option<String>)
        ensures
            r is Some <==> self.non_installed_overlay@.len() > 0,
            r matches Some(p) ==> p@ == self.non_installed_overlay@,
    {
        if self.non_installed_overlay.as_str().unicode_len() == 0 {
            None
        } else {
            Some(self.non_installed_overlay.clone())
        }
    }

    /// The script generator's configuration: product metadata forwarded
    /// verbatim, and `package_dir/install.sh` as the script path.
    pub fn script_config(&self, package_dir: &str) -> (r: ScriptConfig)
        ensures
            r.product_name@ == self.product_name@,
            r.rel_manifest_dir@ == self.rel_manifest_dir@,
            r.success_message@ == self.success_message@,
            r.legacy_manifest_dirs@ == self.legacy_manifest_dirs@,
            r.output_script@ == spec_join(package_dir@, "install.sh"@),
    {
        ScriptConfig {
            product_name: self.product_name.clone(),
            rel_manifest_dir: self.rel_manifest_dir.clone(),
            success_message: self.success_message.clone(),
            legacy_manifest_dirs: self.legacy_manifest_dirs.clone(),
            output_script: path_join(package_dir, "install.sh"),
        }
    }

    /// The archive packer's configuration: pack `package_name` out of the
    /// workspace into `output_dir/package_name`.
    pub fn pack_config(&self) -> (r: PackConfig)
        ensures
            r.work_dir@ == self.work_dir@,
            r.input@ == self.package_name@,
            r.output@ == spec_join(self.output_dir@, self.package_name@),
    {
        PackConfig {
            work_dir: self.work_dir.clone(),
            input: self.package_name.clone(),
            output: path_join(self.output_dir.as_str(), self.package_name.as_str()),
        }
    }
}

/// The text written to the merged package's `rust-installer-version`
/// file: the supported format version on a line of its own.
pub open spec fn spec_stamp_line() -> Seq<char> {
    "3\n"@
}

/// The version stamp authored for the merged package. It is written
/// fresh, never copied from an input.
pub fn version_stamp_line() -> (r: String)
    ensures
        r@ == spec_stamp_line(),
{
    String::from_str("3\n")
}

/// The stamp this tool writes is accepted by its own version check, so a
/// combined package can in turn serve as a well-formed input.
pub proof fn lemma_stamp_accepted()
    ensures
        version_ok(spec_stamp_line()),
{
    reveal_strlit("3\n");
    let s = spec_stamp_line();
    assert(s.len() == 2 && s[0] == '3' && s[1] == '\n');
    assert(space_run(s, 0) == 0);
    assert(space_run_back(s, 1) == 0);
    assert(space_run_back(s, 2) == 1);
    let t = spec_trim(s);
    assert(t =~= seq!['3']);
    assert(t.drop_last() =~= Seq::<char>::empty());
    assert(digits_val(Seq::<char>::empty()) == 0);
    assert(t.last() == '3');
    assert(digits_val(t) == 10 * digits_val(t.drop_last()) + digit_val(t.last()));
    assert(digits_val(t) == digit_val('3'));
    assert('3' as u32 == 51);
    assert(digits_val(t) == 3);
    assert(spec_parse_u64(t) == Some(3u64));
}

/// Configuration for the script generator collaborator: the product
/// metadata forwarded verbatim, and the path of the install script it
/// must write inside the merged package directory.
pub struct ScriptConfig {
    /// The name of the product, for display.
    pub product_name: String,
    /// The directory under lib/ where the manifest lives.
    pub rel_manifest_dir: String,
    /// The string to print after successful installation.
    pub success_message: String,
    /// Places to look for legacy manifests to uninstall.
    pub legacy_manifest_dirs: String,
    /// Where the generated install script goes: `package_dir/install.sh`.
    pub output_script: String,
}

/// Configuration for the archive packer collaborator: pack the named
/// subdirectory of the workspace into an archive at the destination.
pub struct PackConfig {
    /// The workspace the packer reads from.
    pub work_dir: String,
    /// The subdirectory of the workspace to pack: the package name.
    pub input: String,
    /// The destination archive base path: `output_dir/package_name`.
    pub output: String,
}

/// Why merging an archive was refused. Either error aborts the whole run.
#[derive(Debug)]
pub enum CombineError {
    /// The archive's version stamp does not name the supported format
    /// version; `path` is the archive path as given.
    VersionMismatch { path: String },
    /// The archive declares a component whose name is already merged or
    /// repeated within the archive. Collisions fail the run deterministically
    /// rather than letting one input silently clobber another.
    DuplicateComponent { name: String },
}

impl CombineError {
    /// The user-facing description of the failure, naming the offending
    /// input archive or component.
    pub fn message(&self) -> (r: String)
        ensures
            self matches CombineError::VersionMismatch { path } ==> r@
                == "incorrect installer version in "@ + path@,
            self matches CombineError::DuplicateComponent { name } ==> r@
                == "duplicate component "@ + name@,
    {
        match self {
            CombineError::VersionMismatch { path } => {
                let r = "incorrect installer version in ".to_owned().concat(path.as_str());
                assert(r@ =~= "incorrect installer version in "@ + path@);
                r
            },
            CombineError::DuplicateComponent { name } => {
                let r = "duplicate component ".to_owned().concat(name.as_str());
                assert(r@ =~= "duplicate component "@ + name@);
                r
            },
        }
    }
}

/// One planned directory move: component `name` from the extracted
/// archive into the merged package directory.
#[derive(Debug)]
pub struct MoveOp {
    /// Source: the component's directory under the extracted archive.
    pub from: String,
    /// Destination: the component's directory under the merged package.
    pub to: String,
    /// The component's name, to be appended to the merged manifest.
    pub name: String,
}

/// The in-progress merged package: its directory and the component names
/// merged so far, in order.
pub struct MergeState {
    /// The merged package directory.
    pub package_dir: String,
    /// Component names merged so far, in merge order.
    pub merged: Vec<String>,
}

impl MergeState {
    /// No component name is merged twice.
    pub open spec fn wf(self) -> bool {
        distinct_seq(self.merged.deep_view())
    }

    /// A fresh merge into `package_dir`, with nothing merged yet.
    pub fn new(package_dir: String) -> (r: Self)
        ensures
            r.package_dir == package_dir,
            r.merged.deep_view() == Seq::<Seq<char>>::empty(),
            r.wf(),
    {
        let r = MergeState { package_dir, merged: Vec::new() };
        assert(r.merged.deep_view() =~= Seq::<Seq<char>>::empty());
        r
    }

    /// Merges one extracted archive, given the text of its two metadata
    /// files: validates the version stamp, checks every declared component
    /// against the names already merged, and on success records the
    /// components and returns the directory moves the caller must perform.
    /// On error nothing is recorded.
    #[verifier::loop_isolation(false)]
    pub fn process_archive(
        &mut self,
        work_dir: &str,
        tarball: &str,
        version_text: &str,
        components_text: &str,
    ) -> (r: Result<Vec<MoveOp>, CombineError>)
        requires
            old(self).wf(),
        ensures
            final(self).wf(),
            final(self).package_dir == old(self).package_dir,
            match r {
                Ok(moves) => {
                    let comps = spec_components(components_text@);
                    &&& spec_step(old(self).merged.deep_view(), version_text@, components_text@)
                        == Some(final(self).merged.deep_view())
                    &&& final(self).merged.deep_view() == old(self).merged.deep_view() + comps
                    &&& moves@.len() == comps.len()
                    &&& forall|k: int| 0 <= k < comps.len() ==> {
                        &&& (#[trigger] moves@[k]).name@ == comps[k]
                        &&& moves@[k].from@ == spec_join(
                            spec_join(work_dir@, spec_package_id(tarball@)),
                            comps[k],
                        )
                        &&& moves@[k].to@ == spec_join(old(self).package_dir@, comps[k])
                    }
                },
                Err(e) => {
                    let comps = spec_components(components_text@);
                    &&& final(self).merged == old(self).merged
                    &&& spec_step(old(self).merged.deep_view(), version_text@, components_text@)
                        is None
                    &&& match e {
                        CombineError::VersionMismatch { path } => {
                            &&& !version_ok(version_text@)
                            &&& path@ == tarball@
                        },
                        CombineError::DuplicateComponent { name } => {
                            &&& version_ok(version_text@)
                            &&& exists|k: int|
                                first_collision(old(self).merged.deep_view(), comps, k)
                                    && name@ == comps[k]
                        },
                    }
                },
            },
    {
        if !version_matches(version_text) {
            return Err(CombineError::VersionMismatch { path: tarball.to_owned() });
        }
        let comps = component_list(components_text);
        let ghost cv = spec_components(components_text@);
        let ghost merged0 = self.merged.deep_view();
        let mut k: usize = 0;
        while k < comps.len()
            invariant
                0 <= k <= comps.len(),
                forall|m: int| 0 <= m < k ==> !merged0.contains(#[trigger] cv[m]) && !cv.take(
                    m,
                ).contains(cv[m]),
            decreases comps.len() - k,
        {
            if contains_name(&self.merged, &comps[k]) {
                let name = comps[k].clone();
                assert(first_collision(merged0, cv, k as int));
                assert(!fresh_for(merged0, cv));
                return Err(CombineError::DuplicateComponent { name });
            }
            let mut m: usize = 0;
            while m < k
                invariant
                    0 <= m <= k < comps.len(),
                    forall|x: int| 0 <= x < m ==> #[trigger] cv[x] != cv[k as int],
                decreases k - m,
            {
                if string_eq(&comps[m], &comps[k]) {
                    let name = comps[k].clone();
                    assert(cv.take(k as int)[m as int] == cv[m as int]);
                    assert(cv.take(k as int).contains(cv[k as int]));
                    assert(first_collision(merged0, cv, k as int));
                    assert(!distinct_seq(cv)) by {
                        assert(cv[m as int] == cv[k as int]);
                    }
                    return Err(CombineError::DuplicateComponent { name });
                }
                m = m + 1;
            }
            assert(!cv.take(k as int).contains(cv[k as int])) by {
                if cv.take(k as int).contains(cv[k as int]) {
                    let x = choose|x: int| 0 <= x < k && cv.take(k as int)[x] == cv[k as int];
                    assert(cv[x] == cv[k as int]);
                }
            }
            k = k + 1;
        }
        assert(fresh_for(merged0, cv)) by {
            assert forall|i: int, j: int| 0 <= i < j < cv.len() implies cv[i] != cv[j] by {
                assert(!cv.take(j).contains(cv[j]));
                assert(cv.take(j)[i] == cv[i]);
            }
        }
        let pkg_dir = path_join(work_dir, package_id(tarball).as_str());
        let mut moves: Vec<MoveOp> = Vec::new();
        assert(merged0 + cv.take(0) =~= merged0);
        let mut k: usize = 0;
        while k < comps.len()
            invariant
                0 <= k <= comps.len(),
                self.package_dir == old(self).package_dir,
                self.merged.deep_view() == merged0 + cv.take(k as int),
                moves@.len() == k,
                forall|m: int| 0 <= m < k ==> {
                    &&& (#[trigger] moves@[m]).name@ == cv[m]
                    &&& moves@[m].from@ == spec_join(
                        spec_join(work_dir@, spec_package_id(tarball@)),
                        cv[m],
                    )
                    &&& moves@[m].to@ == spec_join(old(self).package_dir@, cv[m])
                },
            decreases comps.len() - k,
        {
            let name = comps[k].clone();
            let from = path_join(pkg_dir.as_str(), name.as_str());
            let to = path_join(self.package_dir.as_str(), name.as_str());
            let ghost dv0 = self.merged.deep_view();
            self.merged.push(comps[k].clone());
            moves.push(MoveOp { from, to, name });
            assert(self.merged.deep_view() =~= dv0.push(cv[k as int]));
            assert(dv0.push(cv[k as int]) =~= merged0 + cv.take(k + 1));
            k = k + 1;
        }
        assert(cv.take(cv.len() as int) =~= cv);
        assert(self.wf()) by {
            let all = merged0 + cv;
            assert forall|i: int, j: int| 0 <= i < j < all.len() implies all[i] != all[j] by {
                if j >= merged0.len() && i < merged0.len() {
                    if all[i] == all[j] {
                        assert(merged0.contains(cv[j - merged0.len()]));
                    }
                }
            }
        }
        Ok(moves)
    }

    /// The merged manifest text so far: each merged name, in order, on a
    /// line of its own.
    #[verifier::loop_isolation(false)]
    pub fn manifest_contents(&self) -> (r: String)
        ensures
            r@ == manifest_of(self.merged.deep_view()),
    {
        let mut acc = String::new();
        let ghost names = self.merged.deep_view();
        let mut k: usize = 0;
        while k < self.merged.len()
            invariant
                0 <= k <= self.merged.len(),
                names == self.merged.deep_view(),
                acc@ == manifest_of(names.take(k as int)),
            decreases self.merged.len() - k,
        {
            let line = manifest_line(self.merged[k].as_str());
            acc.append(line.as_str());
            proof {
                lemma_manifest_snoc(names.take(k + 1));
                assert(names.take(k + 1).drop_last() =~= names.take(k as int));
                assert(names.take(k + 1).last() == names[k as int]);
            }
            k = k + 1;
        }
        assert(names.take(names.len() as int) =~= names);
        acc
    }
}

/// Checks whether `name` is already among the merged names.
#[verifier::loop_isolation(false)]
fn contains_name(merged: &Vec<String>, name: &String) -> (r: bool)
    ensures
        r == merged.deep_view().contains(name@),
{
    let mut i: usize = 0;
    while i < merged.len()
        invariant
            0 <= i <= merged.len(),
            forall|m: int| 0 <= m < i ==> merged.deep_view()[m] != name@,
        decreases merged.len() - i,
    {
        if string_eq(&merged[i], name) {
            assert(merged.deep_view()[i as int] == name@);
            return true;
        }
        i = i + 1;
    }
    assert(!merged.deep_view().contains(name@)) by {
        if merged.deep_view().contains(name@) {
            let x = choose|x: int|
                0 <= x < merged.deep_view().len() && merged.deep_view()[x] == name@;
        }
    }
    false
}

/// String equality by contents.
fn string_eq(a: &String, b: &String) -> (r: bool)
    ensures
        r == (a@ == b@),
{
    *a == *b
}

/// One manifest line: the component name followed by a newline.
pub fn manifest_line(name: &str) -> (r: String)
    ensures
        r@ == name@ + seq!['\n'],
{
    proof {
        reveal_strlit("\n");
    }
    let r = name.to_owned().concat("\n");
    assert(r@ =~= name@ + seq!['\n']);
    r
}

proof fn lemma_manifest_snoc(names: Seq<Seq<char>>)
    requires
        names.len() > 0,
    ensures
        manifest_of(names) == manifest_of(names.drop_last()) + names.last() + seq!['\n'],
    decreases names.len(),
{
    if names.len() == 1 {
        assert(names.drop_first() =~= Seq::<Seq<char>>::empty());
        assert(names.drop_last() =~= Seq::<Seq<char>>::empty());
        assert(manifest_of(names) =~= manifest_of(names.drop_last()) + names.last() + seq!['\n']);
    } else {
        let rest = names.drop_first();
        lemma_manifest_snoc(rest);
        assert(names.drop_last()[0] == names[0]);
        assert(names.drop_last().len() > 0);
        assert(names.drop_last().drop_first() =~= rest.drop_last());
        assert(rest.last() == names.last());
        assert(manifest_of(names.drop_last()) == names[0] + seq!['\n'] + manifest_of(
            rest.drop_last(),
        ));
        assert(manifest_of(names) =~= manifest_of(names.drop_last()) + names.last() + seq!['\n']);
    }
}

} // verus!
