//! The server side of the RPC contract: a registry built before serving,
//! the catalog it lists and the `(success, message)` envelope of `Execute`.
use vstd::prelude::*;

use crate::catalog::{
    duplicate_commands, lemma_lookup_service, lookup_command, lookup_service, service_models,
    CommandInfo, ServiceInfo, ServiceModel,
};
use crate::registry::{
    dispatch_fault, fault_message, model_of, row_model, Registry, Service,
};

verus! {

/// The reply to `Execute`: application-level failures are reported here,
/// never as a transport error.
#[derive(Debug, Clone, PartialEq, Eq)]
pub struct CommandResponse {
    pub success: bool,
    pub message: String,
}

/// A registry that is filled by `register` and then served; serving takes
/// the server by value, so nothing can be registered afterwards.
pub struct NexusServer {
    registry: Registry,
}

impl NexusServer {
    /// The catalog the server lists.
    pub closed spec fn spec_catalog(&self) -> Seq<ServiceModel> {
        self.registry.spec_catalog()
    }

    pub closed spec fn wf(&self) -> bool {
        self.registry.wf()
    }

    pub open spec fn spec_has_service(&self, name: Seq<char>) -> bool {
        lookup_service(self.spec_catalog(), name) is Some
    }

    pub fn new() -> (r: Self)
        ensures
            r.wf(),
            r.spec_catalog() == Seq::<ServiceModel>::empty(),
    {
        NexusServer { registry: Registry::new() }
    }

    /// Whether a service of this name is registered.
    pub fn has_service(&self, name: &str) -> (r: bool)
        ensures
            r == self.spec_has_service(name@),
    {
        self.registry.has_service(name)
    }

    /// Registers a service with the server. Each name is registered once,
    /// and only before serving.
    pub fn register<S: Service + 'static>(self, service: S) -> (r: Self)
        requires
            self.wf(),
            !self.spec_has_service(service.spec_name()),
        ensures
            r.wf(),
            r.spec_catalog() == self.spec_catalog().push(model_of(service)),
    {
        let mut registry = self.registry;
        registry.register(service);
        NexusServer { registry }
    }

    /// `Execute`: dispatches the call and folds every application-level
    /// failure into `success == false` with its message.
    pub fn execute(&self, service: &str, action: &str, args: Vec<String>) -> (r: CommandResponse)
        requires
            self.wf(),
        ensures
            match dispatch_fault(self.spec_catalog(), service@, action@, args@.len()) {
                Some(f) => !r.success && r.message@ == fault_message(f),
                None => true,
            },
            !self.spec_has_service(service@) ==> !r.success && r.message@ == "unknown service '"@
                + service@ + "'"@,
            self.spec_has_service(service@) && lookup_command(
                lookup_service(self.spec_catalog(), service@)->0.commands,
                action@,
            ) is None ==> !r.success && r.message@ == "unknown command '"@ + action@ + "'"@,
    {
        match self.registry.execute(service, action, args) {
            Ok(message) => CommandResponse { success: true, message },
            Err(e) => CommandResponse { success: false, message: e.message() },
        }
    }

    /// `ListServices`: the whole catalog, one entry per registered service.
    pub fn list_services(&self) -> (r: Vec<ServiceInfo>)
        ensures
            service_models(r@) == self.spec_catalog(),
    {
        let rows = self.registry.list_services();
        let mut r: Vec<ServiceInfo> = Vec::new();
        let mut i: usize = 0;
        while i < rows.len()
            invariant
                rows@.map_values(|row: (&str, &str, Vec<CommandInfo>)| row_model(row))
                    == self.spec_catalog(),
                i <= rows@.len(),
                r@.len() == i,
                forall|j: int| 0 <= j < i ==> #[trigger] r@[j]@ == row_model(rows@[j]),
            decreases rows@.len() - i,
        {
            let row = &rows[i];
            r.push(
                ServiceInfo {
                    name: row.0.to_owned(),
                    description: row.1.to_owned(),
                    commands: duplicate_commands(&row.2),
                },
            );
            i = i + 1;
        }
        assert(service_models(r@) =~= self.spec_catalog());
        r
    }
}

/// Listing the services of a server yields exactly one entry for each
/// registered name, and two listings of the same server are identical.
pub proof fn listing_has_one_entry_per_name(
    server: NexusServer,
    first: Seq<ServiceModel>,
    second: Seq<ServiceModel>,
    name: Seq<char>,
)
    requires
        server.wf(),
        first == server.spec_catalog(),
        second == server.spec_catalog(),
        server.spec_has_service(name),
    ensures
        exists|i: int| 0 <= i < first.len() && #[trigger] first[i].name == name,
        forall|i: int, j: int|
            0 <= i < first.len() && 0 <= j < first.len() && #[trigger] first[i].name == name
                && #[trigger] first[j].name == name ==> i == j,
        first == second,
{
    lemma_lookup_service(first, name);
    server.registry.lemma_names_distinct();
    assert forall|i: int, j: int|
        0 <= i < first.len() && 0 <= j < first.len() && #[trigger] first[i].name == name
            && #[trigger] first[j].name == name implies i == j by {
        if i < j {
            assert(first[i].name != first[j].name);
        } else if j < i {
            assert(first[j].name != first[i].name);
        }
    }
}

} // verus!
