//! A provisioned circuit.
use crate::single::Single;
use vstd::prelude::*;

verus! {

/// A service: a circuit on one wavelength channel along a path of nodes,
/// active from its arrival time up to, not including, its departure time.
#[derive(Debug, PartialEq)]
pub struct ServiceData {
    pub source_id: String,
    pub destination_id: String,
    pub arrival_time: Single,
    pub departure_time: Single,
    pub snr_requirement: Single,
    pub bit_rate_requirement: Single,
    pub power: Single,
    pub path: Vec<String>,
    pub wavelength: i32,
    pub gsnr: Single,
    pub utilization: Single,
}

/// What a service is, as plain mathematical data.
pub struct ServiceModel {
    pub source_id: Seq<char>,
    pub destination_id: Seq<char>,
    pub arrival_time: Single,
    pub departure_time: Single,
    pub snr_requirement: Single,
    pub bit_rate_requirement: Single,
    pub power: Single,
    pub path: Seq<Seq<char>>,
    pub wavelength: i32,
    pub gsnr: Single,
    pub utilization: Single,
}

/// The node identifiers of a path, each as its characters.
pub open spec fn path_view(path: Seq<String>) -> Seq<Seq<char>> {
    Seq::new(path.len(), |i: int| path[i]@)
}

impl View for ServiceData {
    type V = ServiceModel;

    open spec fn view(&self) -> ServiceModel {
        ServiceModel {
            source_id: self.source_id@,
            destination_id: self.destination_id@,
            arrival_time: self.arrival_time,
            departure_time: self.departure_time,
            snr_requirement: self.snr_requirement,
            bit_rate_requirement: self.bit_rate_requirement,
            power: self.power,
            path: path_view(self.path@),
            wavelength: self.wavelength,
            gsnr: self.gsnr,
            utilization: self.utilization,
        }
    }
}

impl ServiceModel {
    /// The service is active at time `t`: it has arrived and not yet departed.
    pub open spec fn active_at(self, t: Single) -> bool {
        self.arrival_time.le_spec(t) && t.lt_spec(self.departure_time)
    }
}

/// A copy of a path.
pub fn clone_path(path: &Vec<String>) -> (copy: Vec<String>)
    ensures
        copy@ == path@,
        path_view(copy@) == path_view(path@),
{
    let mut copy: Vec<String> = Vec::new();
    let mut i: usize = 0;
    while i < path.len()
        invariant
            i <= path.len(),
            copy@ == path@.take(i as int),
        decreases path.len() - i,
    {
        copy.push(path[i].clone());
        assert(copy@ =~= path@.take(i + 1));
        i += 1;
    }
    assert(path@.take(path.len() as int) =~= path@);
    copy
}

impl Clone for ServiceData {
    /// A copy with the same contents.
    fn clone(&self) -> (copy: ServiceData)
        ensures
            copy@ == self@,
    {
        ServiceData {
            source_id: self.source_id.clone(),
            destination_id: self.destination_id.clone(),
            arrival_time: self.arrival_time,
            departure_time: self.departure_time,
            snr_requirement: self.snr_requirement,
            bit_rate_requirement: self.bit_rate_requirement,
            power: self.power,
            path: clone_path(&self.path),
            wavelength: self.wavelength,
            gsnr: self.gsnr,
            utilization: self.utilization,
        }
    }
}

impl ServiceData {
    /// Whether the service is active at time `t`.
    pub fn is_active_at(&self, t: Single) -> (r: bool)
        ensures
            r == self@.active_at(t),
    {
        self.arrival_time.le(t) && t.lt(self.departure_time)
    }
}

} // verus!
