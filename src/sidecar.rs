//! The registry of running plugin processes.
use vstd::prelude::*;

verus! {

/// An error of std's I/O layer, as a failed plugin start reports it.
#[verifier::external_type_specification]
#[verifier::external_body]
pub struct ExIoError(std::io::Error);

/// The identifier of a plugin process.
#[derive(Clone, Copy, Debug, PartialEq, Eq, Structural)]
pub struct PluginId(pub i64);

/// A connected plugin.
#[derive(Debug)]
pub struct Plugin {
    pub id: PluginId,
    pub name: String,
}

/// The plugins that are connected, in connection order.
#[derive(Debug)]
pub struct SidecarState {
    pub plugins: Vec<Plugin>,
}

/// The ids of a sequence of plugins.
pub open spec fn ids_of(plugins: Seq<Plugin>) -> Seq<PluginId> {
    plugins.map_values(|p: Plugin| p.id)
}

impl SidecarState {
    /// A registry with no plugin.
    pub fn new() -> (r: SidecarState)
        ensures
            r.plugins@.len() == 0,
    {
        SidecarState { plugins: Vec::new() }
    }

    /// Registers a plugin that connected; a failed start registers nothing.
    pub fn plugin_connect(&mut self, plugin: Result<Plugin, std::io::Error>)
        ensures
            plugin is Ok ==> final(self).plugins@ == old(self).plugins@.push(plugin->Ok_0),
            plugin is Err ==> final(self).plugins@ == old(self).plugins@,
    {
        match plugin {
            Ok(p) => self.plugins.push(p),
            Err(_) => {},
        }
    }

    /// Removes the first plugin with id `id` and hands it back, so that its
    /// process can be shut down; nothing happens when there is none.
    pub fn plugin_disconnect(&mut self, id: PluginId) -> (r: Option<Plugin>)
        ensures
            (exists|k: int|
                0 <= k < old(self).plugins@.len() && old(self).plugins@[k].id == id) ==> r is Some
                && exists|k: int|
                0 <= k < old(self).plugins@.len() && old(self).plugins@[k].id == id && (forall|
                    j: int,
                |
                    0 <= j < k ==> old(self).plugins@[j].id != id) && r->Some_0 == old(
                    self
                ).plugins@[k] && final(self).plugins@ == old(self).plugins@.remove(k),
            !(exists|k: int|
                0 <= k < old(self).plugins@.len() && old(self).plugins@[k].id == id) ==> r is None
                && final(self).plugins@ == old(self).plugins@,
    {
        let mut i: usize = 0;
        while i < self.plugins.len()
            invariant
                i <= self.plugins@.len(),
                self.plugins@ == old(self).plugins@,
                forall|j: int| 0 <= j < i ==> self.plugins@[j].id != id,
            decreases self.plugins.len() - i,
        {
            if self.plugins[i].id == id {
                let p = self.plugins.remove(i);
                return Some(p);
            }
            i += 1;
        }
        None
    }
}

} // verus!
