//! The server-side registry: services registered by name, the catalog they
//! make up, and dispatch of `(service, action, args)` to their handlers.
use vstd::prelude::*;
use vstd::string::StringExecFns;

use crate::catalog::{
    command_models, duplicate_commands, find_command, find_service, lemma_lookup_service,
    lookup_command, lookup_service, service_models, CommandInfo, CommandModel, ServiceInfo,
    ServiceModel,
};
use crate::text::{decimal, push_decimal};

verus! {

/// A named group of commands that can run one of them by name with
/// positional string arguments.
pub trait Service: Send + Sync {
    spec fn spec_name(&self) -> Seq<char>;

    spec fn spec_description(&self) -> Seq<char>;

    spec fn spec_commands(&self) -> Seq<CommandModel>;

    /// The service name used for dispatch (e.g., "volume").
    fn name(&self) -> (r: &str)
        ensures
            r@ == self.spec_name(),
    ;

    /// Human-readable description of the service.
    fn description(&self) -> (r: &str)
        ensures
            r@ == self.spec_description(),
    ;

    /// The commands this service supports.
    fn commands(&self) -> (r: Vec<CommandInfo>)
        ensures
            command_models(r@) == self.spec_commands(),
    ;

    /// Runs the command `action` with positional arguments `args`; an error
    /// carries the handler's message.
    fn execute(&self, action: &str, args: Vec<String>) -> Result<String, String>;
}

/// Why a dispatch did not produce a handler's success, as the contracts see it.
pub enum DispatchFault {
    UnknownService(Seq<char>),
    UnknownCommand(Seq<char>),
    MissingArgument(Seq<char>, nat),
    Failed(Seq<char>),
}

/// Why a dispatch did not produce a handler's success.
#[derive(Debug, Clone, PartialEq, Eq)]
pub enum DispatchError {
    /// No service of that name is registered.
    UnknownService(String),
    /// The service declares no command of that name.
    UnknownCommand(String),
    /// Fewer arguments than declared: the first unbound parameter and the
    /// declared count.
    MissingArgument { name: String, expected: usize },
    /// The handler itself failed with this message.
    Failed(String),
}

impl View for DispatchError {
    type V = DispatchFault;

    open spec fn view(&self) -> DispatchFault {
        match self {
            DispatchError::UnknownService(s) => DispatchFault::UnknownService(s@),
            DispatchError::UnknownCommand(a) => DispatchFault::UnknownCommand(a@),
            DispatchError::MissingArgument { name, expected } => DispatchFault::MissingArgument(
                name@,
                *expected as nat,
            ),
            DispatchError::Failed(m) => DispatchFault::Failed(m@),
        }
    }
}

/// The human-readable message of a fault.
pub open spec fn fault_message(f: DispatchFault) -> Seq<char> {
    match f {
        DispatchFault::UnknownService(s) => "unknown service '"@ + s + "'"@,
        DispatchFault::UnknownCommand(a) => "unknown command '"@ + a + "'"@,
        DispatchFault::MissingArgument(name, expected) => "missing argument '"@ + name
            + "' (expected "@ + decimal(expected) + " args)"@,
        DispatchFault::Failed(m) => m,
    }
}

/// The validation fault of a call `(service, action, args)` against the
/// catalog, checked in that order; `None` when the handler is to run.
pub open spec fn dispatch_fault(
    catalog: Seq<ServiceModel>,
    service: Seq<char>,
    action: Seq<char>,
    nargs: nat,
) -> Option<DispatchFault> {
    match lookup_service(catalog, service) {
        None => Some(DispatchFault::UnknownService(service)),
        Some(svc) => match lookup_command(svc.commands, action) {
            None => Some(DispatchFault::UnknownCommand(action)),
            Some(cmd) => if nargs < cmd.args.len() {
                Some(DispatchFault::MissingArgument(cmd.args[nargs as int].name, cmd.args.len()))
            } else {
                None
            },
        },
    }
}

impl DispatchError {
    /// The human-readable message, e.g. `unknown service 'disk'`.
    pub fn message(&self) -> (r: String)
        ensures
            r@ == fault_message(self@),
    {
        match self {
            DispatchError::UnknownService(s) => {
                let mut m = String::from_str("unknown service '");
                m.append(s.as_str());
                m.append("'");
                m
            },
            DispatchError::UnknownCommand(a) => {
                let mut m = String::from_str("unknown command '");
                m.append(a.as_str());
                m.append("'");
                m
            },
            DispatchError::MissingArgument { name, expected } => {
                let mut m = String::from_str("missing argument '");
                m.append(name.as_str());
                m.append("' (expected ");
                push_decimal(&mut m, *expected);
                m.append(" args)");
                m
            },
            DispatchError::Failed(msg) => msg.clone(),
        }
    }
}

/// The catalog entry of a service, as `register` records it.
pub open spec fn model_of<S: Service>(service: S) -> ServiceModel {
    ServiceModel {
        name: service.spec_name(),
        description: service.spec_description(),
        commands: service.spec_commands(),
    }
}

/// The catalog entry of a listing row.
pub open spec fn row_model(row: (&str, &str, Vec<CommandInfo>)) -> ServiceModel {
    ServiceModel { name: row.0@, description: row.1@, commands: command_models(row.2@) }
}

/// Holds registered services and dispatches commands to them.
pub struct Registry {
    /// Each service's catalog entry, taken when it was registered.
    catalog: Vec<ServiceInfo>,
    /// The handlers, in the same order as `catalog`. Verus states nothing
    /// of a vector of trait objects, so no contract speaks of this field.
    services: Vec<Box<dyn Service>>,
}

impl Registry {
    /// The catalog: one entry per registered service, in registration order.
    pub closed spec fn spec_catalog(&self) -> Seq<ServiceModel> {
        service_models(self.catalog@)
    }

    /// No two registered services share a name.
    pub closed spec fn wf(&self) -> bool {
        forall|i: int, j: int|
            0 <= i < j < self.catalog@.len() ==> #[trigger] self.catalog@[i].name@
                != #[trigger] self.catalog@[j].name@
    }

    /// The catalog of a well-formed registry names each service once.
    pub proof fn lemma_names_distinct(&self)
        requires
            self.wf(),
        ensures
            forall|i: int, j: int|
                0 <= i < j < self.spec_catalog().len() ==> #[trigger] self.spec_catalog()[i].name
                    != #[trigger] self.spec_catalog()[j].name,
    {
        assert forall|i: int, j: int|
            0 <= i < j < self.spec_catalog().len() implies #[trigger] self.spec_catalog()[i].name
            != #[trigger] self.spec_catalog()[j].name by {
            assert(self.spec_catalog()[i].name == self.catalog@[i].name@);
            assert(self.spec_catalog()[j].name == self.catalog@[j].name@);
        }
    }

    /// Whether a service of this name is registered.
    pub open spec fn spec_has_service(&self, name: Seq<char>) -> bool {
        lookup_service(self.spec_catalog(), name) is Some
    }

    pub fn new() -> (r: Self)
        ensures
            r.wf(),
            r.spec_catalog() == Seq::<ServiceModel>::empty(),
    {
        let r = Registry { catalog: Vec::new(), services: Vec::new() };
        assert(r.spec_catalog() =~= Seq::<ServiceModel>::empty());
        r
    }

    /// Whether a service of this name is registered.
    pub fn has_service(&self, name: &str) -> (r: bool)
        ensures
            r == self.spec_has_service(name@),
    {
        find_service(self.catalog.as_slice(), name).is_some()
    }

    /// Registers a service under its own name. Each name is registered once.
    pub fn register<S: Service + 'static>(&mut self, service: S)
        requires
            old(self).wf(),
            !old(self).spec_has_service(service.spec_name()),
        ensures
            final(self).wf(),
            final(self).spec_catalog() == old(self).spec_catalog().push(model_of(service)),
    {
        let entry = ServiceInfo {
            name: service.name().to_owned(),
            description: service.description().to_owned(),
            commands: service.commands(),
        };
        proof {
            lemma_lookup_service(self.spec_catalog(), service.spec_name());
            assert forall|i: int| 0 <= i < self.catalog@.len() implies #[trigger] self.catalog@[i].name@
                != service.spec_name() by {
                assert(self.spec_catalog()[i].name == self.catalog@[i].name@);
            }
        }
        let ghost before = self.catalog@;
        self.catalog.push(entry);
        let handler: Box<dyn Service> = Box::new(service);
        self.services.push(handler);
        assert forall|i: int, j: int| 0 <= i < j < self.catalog@.len() implies #[trigger] self.catalog@[i].name@
            != #[trigger] self.catalog@[j].name@ by {
            assert(self.catalog@[i] == before[i]);
            if j < before.len() {
                assert(self.catalog@[j] == before[j]);
            }
        }
        assert(self.spec_catalog() =~= old(self).spec_catalog().push(model_of(service)));
    }

    /// One row per registered service: its name, description and commands.
    pub fn list_services(&self) -> (r: Vec<(&str, &str, Vec<CommandInfo>)>)
        ensures
            r@.map_values(|row: (&str, &str, Vec<CommandInfo>)| row_model(row))
                == self.spec_catalog(),
    {
        let mut r: Vec<(&str, &str, Vec<CommandInfo>)> = Vec::new();
        let mut i: usize = 0;
        while i < self.catalog.len()
            invariant
                i <= self.catalog@.len(),
                r@.len() == i,
                forall|j: int| 0 <= j < i ==> row_model(#[trigger] r@[j]) == self.catalog@[j]@,
            decreases self.catalog@.len() - i,
        {
            let svc = &self.catalog[i];
            r.push((svc.name.as_str(), svc.description.as_str(), duplicate_commands(&svc.commands)));
            i = i + 1;
        }
        assert(r@.map_values(|row: (&str, &str, Vec<CommandInfo>)| row_model(row))
            =~= self.spec_catalog());
        r
    }

    /// Resolves `service`, then `action` among its declared commands, then
    /// binds `args` to the declared parameters, and runs the handler; extra
    /// trailing arguments are passed through.
    pub fn execute(&self, service_name: &str, action: &str, args: Vec<String>) -> (r: Result<
        String,
        DispatchError,
    >)
        requires
            self.wf(),
        ensures
            match dispatch_fault(self.spec_catalog(), service_name@, action@, args@.len()) {
                Some(f) => r is Err && r->Err_0@ == f,
                None => r is Ok || r->Err_0 is Failed,
            },
    {
        let i = match find_service(self.catalog.as_slice(), service_name) {
            Some(i) => i,
            None => {
                return Err(DispatchError::UnknownService(service_name.to_owned()));
            },
        };
        let entry = &self.catalog[i];
        let j = match find_command(&entry.commands, action) {
            Some(j) => j,
            None => {
                return Err(DispatchError::UnknownCommand(action.to_owned()));
            },
        };
        let cmd = &entry.commands[j];
        if args.len() < cmd.args.len() {
            return Err(
                DispatchError::MissingArgument {
                    name: cmd.args[args.len()].name.clone(),
                    expected: cmd.args.len(),
                },
            );
        }
        // `register` keeps the handlers in step with the catalog, so the
        // lookup finds the handler of the service resolved above.
        match self.services.get(i) {
            Some(handler) => match handler.execute(action, args) {
                Ok(m) => Ok(m),
                Err(m) => Err(DispatchError::Failed(m)),
            },
            None => Err(DispatchError::Failed(String::from_str("service has no handler"))),
        }
    }
}

} // verus!
