//! The GPUs of the machine: a DRM node, the PCI vendor number and a name.

use vstd::prelude::*;
use drm::node::DrmNode;
use vstd::string::*;
use crate::text::{hex_padded, push_hex_padded};

verus! {

/// The DRM node of a GPU (the `drm` crate's type, which `smithay` re-exports).
#[verifier::external_type_specification]
#[verifier::external_body]
pub struct ExDrmNode(drm::node::DrmNode);

/// `==` on `DrmNode`. Its `PartialEq` is derived and compares the device
/// number and the node type, which are all of a node's fields; the contract
/// claims that it holds exactly of equal nodes.
#[verifier::external_body]
fn drm_node_eq(a: &DrmNode, b: &DrmNode) -> (r: bool)
    ensures
        r == (*a == *b),
{
    a == b
}

/// The description of a GPU with the given node text, PCI vendor number and name.
pub open spec fn gpu_description(node_text: Seq<char>, vendor: u32, name: Seq<char>) -> Seq<char> {
    "GPUDevice { drm_node: "@ + node_text + ", pci_vendor: 0x"@ + hex_padded(vendor as nat, 4)
        + ", device_name: "@ + name + " }"@
}

/// The description of a GPU with the given node text, PCI vendor number and name.
pub fn describe_gpu(node_text: &str, vendor: u32, name: &str) -> (r: String)
    ensures
        r@ == gpu_description(node_text@, vendor, name@),
{
    let mut d = String::from_str("GPUDevice { drm_node: ");
    d.append(node_text);
    d.append(", pci_vendor: 0x");
    push_hex_padded(&mut d, vendor as u64, 4);
    d.append(", device_name: ");
    d.append(name);
    d.append(" }");
    d
}

/// A GPU of the machine.
#[derive(Debug, PartialEq)]
pub struct GPUDevice {
    drm_node: DrmNode,
    pci_vendor: u32,
    device_name: String,
}

/// Why no GPU was found for a DRM node.
#[derive(Debug, Clone, Copy, PartialEq, Eq)]
pub enum GpuLookupError {
    /// No GPU has the given DRM node.
    NoDeviceForNode,
}

impl GpuLookupError {
    /// The error's message.
    pub fn message(&self) -> (r: &'static str)
        ensures
            r@ == "No GPU device for given DRM node"@,
    {
        "No GPU device for given DRM node"
    }
}

impl GPUDevice {
    /// The DRM node of the GPU.
    pub closed spec fn node(&self) -> DrmNode {
        self.drm_node
    }

    /// The PCI vendor number of the GPU.
    pub closed spec fn vendor(&self) -> u32 {
        self.pci_vendor
    }

    /// The name of the GPU (vendor and device), as text.
    pub closed spec fn name(&self) -> Seq<char> {
        self.device_name@
    }

    /// A GPU with the given DRM node, PCI vendor number and name.
    pub fn new(drm_node: DrmNode, pci_vendor: u32, device_name: String) -> (r: GPUDevice)
        ensures
            r.node() == drm_node,
            r.vendor() == pci_vendor,
            r.name() == device_name@,
    {
        GPUDevice { drm_node, pci_vendor, device_name }
    }

    /// The DRM node of the GPU.
    pub fn drm_node(&self) -> (r: &DrmNode)
        ensures
            *r == self.node(),
    {
        &self.drm_node
    }

    /// The PCI vendor number of the GPU.
    pub fn pci_vendor(&self) -> (r: &u32)
        ensures
            *r == self.vendor(),
    {
        &self.pci_vendor
    }

    /// The description of the GPU, given the text of its DRM node:
    /// `GPUDevice { drm_node: <node>, pci_vendor: 0x<vendor, 4 hex digits>, device_name: <name> }`.
    pub fn describe(&self, node_text: &str) -> (r: String)
        ensures
            r@ == gpu_description(node_text@, self.vendor(), self.name()),
    {
        describe_gpu(node_text, self.pci_vendor, self.device_name.as_str())
    }

    /// The name of the GPU (vendor and device).
    pub fn device_name(&self) -> (r: &str)
        ensures
            r@ == self.name(),
    {
        self.device_name.as_str()
    }

}

impl Clone for GPUDevice {
    /// A copy of the GPU's description.
    fn clone(&self) -> (r: GPUDevice)
        ensures
            r.node() == self.node(),
            r.vendor() == self.vendor(),
            r.name() == self.name(),
    {
        GPUDevice {
            drm_node: self.drm_node,
            pci_vendor: self.pci_vendor,
            device_name: self.device_name.clone(),
        }
    }
}

/// The first GPU of `devices` whose DRM node is `drm_node`.
pub fn find_gpu_device(devices: &Vec<GPUDevice>, drm_node: &DrmNode) -> (r: Result<
    GPUDevice,
    GpuLookupError,
>)
    ensures
        match r {
            Ok(d) => exists|i: int|
                0 <= i < devices@.len() && devices@[i].node() == *drm_node && (forall|j: int|
                    0 <= j < i ==> devices@[j].node() != *drm_node) && d.node() == devices@[i].node()
                    && d.vendor() == devices@[i].vendor() && d.name() == devices@[i].name(),
            Err(e) => e == GpuLookupError::NoDeviceForNode && forall|j: int|
                0 <= j < devices@.len() ==> devices@[j].node() != *drm_node,
        },
{
    let mut i: usize = 0;
    while i < devices.len()
        invariant
            i <= devices@.len(),
            forall|j: int| 0 <= j < i ==> devices@[j].node() != *drm_node,
        decreases devices@.len() - i,
    {
        if drm_node_eq(&devices[i].drm_node, drm_node) {
            let d = devices[i].clone();
            assert(devices@[i as int].node() == *drm_node);
            return Ok(d);
        }
        i = i + 1;
    }
    Err(GpuLookupError::NoDeviceForNode)
}

} // verus!
