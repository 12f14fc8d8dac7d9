//! A verified core for a live, OSC-controllable generative-visuals engine:
//! a path-addressed parameter store with typed endpoints, a node-graph
//! scheduler with a precomputed bottom-up evaluation order, and a keyframe
//! program engine that fades the store between snapshots.
pub mod codec;
pub mod easing;
pub mod osc_convert;
pub mod parameter;
pub mod program;
pub mod texture_tree;
pub mod value;

pub use codec::{decode_table, encode_table, lemma_table_round_trip};
pub use easing::{EasingKind, Interpolate, FACTOR_ONE};
pub use osc_convert::FromOscType;
pub use parameter::{
    ControlMessage, MsgView, ParamView, Parameter, ParameterEnd, ParameterEndpoint,
    ParameterFactory, ParameterHandle, ParameterStore,
};
pub use program::{
    LoadStoreError, PersistAction, Pid, Program, ProgramManager, ProgramSwitcher, ProgramView,
    SwitcherView, COMPLETE_THRESHOLD,
};
pub use texture_tree::{reaches, TextureArena, TextureNode, TextureTree};
pub use value::{DoubleMicro, FloatMicro, OscColorDef, OscMidiMessageDef, Value, ValueView, MICRO};
