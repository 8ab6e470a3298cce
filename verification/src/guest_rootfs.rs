//! The guest rootfs that runs the guest agent: its preparation strategy
//! and the cleanup each strategy owes.

use vstd::prelude::*;

verus! {

/// How the guest rootfs was prepared, which decides its cleanup: an
/// overlay mount must be unmounted, an extracted tree deleted, a direct
/// path and a cache-owned disk left alone.
#[derive(Debug, Clone)]
pub enum Strategy {
    /// A path the user provided; not this runtime's to delete.
    Direct,
    /// Layers extracted into one directory.
    Extracted { layers: usize },
    /// An overlay filesystem mount over read-only layers.
    OverlayMount { lower: Vec<String>, upper: String, work: String },
    /// The rootfs lives in a disk image the image cache owns.
    Disk { disk_path: String, device_path: Option<String> },
}

/// A fully resolved guest rootfs.
#[derive(Debug, Clone)]
pub struct GuestRootfs {
    /// The merged/final rootfs directory (or mount point).
    pub path: String,
    pub strategy: Strategy,
    /// Kernel image for the microVM, where one is needed.
    pub kernel: Option<String>,
    pub initrd: Option<String>,
    /// Environment from the init image's configuration.
    pub env: Vec<(String, String)>,
}

/// Directory-backed strategies need the guest agent binary injected;
/// disk-backed rootfs images already carry it.
pub open spec fn spec_needs_guest_binary(strategy: &Strategy) -> bool {
    !(strategy is Disk)
}

impl GuestRootfs {
    /// Assemble a guest rootfs. The caller injects the guest binary into
    /// `path` beforehand exactly when the strategy asks for it (see
    /// `needs_guest_binary`).
    pub fn new(
        path: String,
        strategy: Strategy,
        kernel: Option<String>,
        initrd: Option<String>,
        env: Vec<(String, String)>,
    ) -> (r: Self)
        ensures
            r.path == path,
            r.strategy == strategy,
            r.kernel == kernel,
            r.initrd == initrd,
            r.env == env,
    {
        GuestRootfs { path, strategy, kernel, initrd, env }
    }

    /// Whether this rootfs needs the guest binary injected.
    pub fn needs_guest_binary(&self) -> (r: bool)
        ensures
            r == spec_needs_guest_binary(&self.strategy),
    {
        match self.strategy {
            Strategy::Disk { .. } => false,
            _ => true,
        }
    }

    /// The cleanup this rootfs owes, for the caller to carry out.
    pub fn cleanup_action(&self) -> (r: CleanupAction)
        ensures
            self.strategy is Direct ==> r is Nothing,
            self.strategy is Extracted ==> (r matches CleanupAction::RemoveParentDir(p) && p@
                == self.path@),
            self.strategy is OverlayMount ==> (r
                matches CleanupAction::UnmountAndRemoveParentDir(p) && p@ == self.path@),
            self.strategy is Disk ==> r is Nothing,
    {
        match &self.strategy {
            Strategy::Direct => CleanupAction::Nothing,
            Strategy::Extracted { .. } => CleanupAction::RemoveParentDir(self.path.clone()),
            Strategy::OverlayMount { .. } => CleanupAction::UnmountAndRemoveParentDir(
                self.path.clone(),
            ),
            Strategy::Disk { .. } => CleanupAction::Nothing,
        }
    }
}

/// What cleaning up a guest rootfs amounts to. The path named is the
/// merged directory; its parent holds the working directories and is the
/// tree to delete.
#[derive(Debug, Clone)]
pub enum CleanupAction {
    /// Nothing to do: the path is user-provided or cache-owned.
    Nothing,
    /// Delete the directory tree around the merged directory.
    RemoveParentDir(String),
    /// Unmount the overlay first, then delete the tree around it.
    UnmountAndRemoveParentDir(String),
}

} // verus!
