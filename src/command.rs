//! The commands of the program, and what each asks its caller to do.
use vstd::prelude::*;

use crate::config::Config;
use crate::fill::Fill;
use crate::model::Model;
use crate::provider::Provider;

verus! {

/// Options shared by every command.
pub struct Options {
    pub model: Model,
}

/// A parsed command line.
pub struct Arguments {
    pub options: Options,
    pub subcommand: Subcommand,
}

/// The commands.
pub enum Subcommand {
    Fill(Fill),
    SetKey(SetKey),
}

/// The command that stores an API key.
pub struct SetKey {
    pub service: Provider,
    pub api_key: String,
}

/// The work that a command leaves to its caller.
pub enum Task {
    /// Fill the holes of a file with the model.
    Fill(Fill, Model),
    /// Save this configuration.
    SaveConfig(Config),
}

/// `c` is `config` with `key` stored for `service`.
pub open spec fn stores_key(c: Config, config: Config, service: Provider, key: Seq<char>) -> bool {
    &&& c.key(service) == key
    &&& forall|p: Provider| p != service ==> c.key(p) == config.key(p)
}

/// What `command` run with `options` on `config` leaves to do.
pub open spec fn task_is(r: Task, command: Subcommand, options: Options, config: Config) -> bool {
    match command {
        Subcommand::Fill(f) => r == Task::Fill(f, options.model),
        Subcommand::SetKey(k) => r matches Task::SaveConfig(c) && stores_key(
            c,
            config,
            k.service,
            k.api_key@,
        ),
    }
}

impl SetKey {
    /// The configuration with the key stored.
    pub fn run(self, config: Config) -> (r: Config)
        ensures
            stores_key(r, config, self.service, self.api_key@),
    {
        let mut config = config;
        config.set_key(self.service, self.api_key);
        config
    }
}

impl Subcommand {
    /// What the command leaves to do, given the stored configuration.
    pub fn run(self, options: Options, config: Config) -> (r: Task)
        ensures
            task_is(r, self, options, config),
    {
        match self {
            Subcommand::Fill(fill) => Task::Fill(fill, options.model),
            Subcommand::SetKey(set_key) => Task::SaveConfig(set_key.run(config)),
        }
    }
}

impl Arguments {
    /// What the command line leaves to do, given the stored configuration.
    pub fn run(self, config: Config) -> (r: Task)
        ensures
            task_is(r, self.subcommand, self.options, config),
    {
        self.subcommand.run(self.options, config)
    }
}

} // verus!
