//! Plain message and mode types exchanged with the exterior
//! collaborators: the viewer panels, the camera controller, the dataset
//! loader and the training loop.  They carry no core logic; the core only
//! defines them so collaborators and the renderer agree on their shape.

use vstd::prelude::*;

verus! {

/// How the camera controller interprets a drag.
#[derive(Clone, Copy, PartialEq, Eq, Structural, Debug)]
pub enum CameraRotateMode {
    Orbit,
    PanTilt,
}

/// The panels a viewer can open around the rendered scene.
#[derive(Clone, Copy, PartialEq, Eq, Structural, Debug)]
pub enum PanelTypes {
    ViewOptions,
    TrainingOptions,
    Presets,
    Stats,
    Rerun,
    Datasets,
    Dummy,
}

/// The title a panel is shown under.
pub fn panel_title(panel: &PanelTypes) -> (r: &'static str)
    ensures
        r@ == match panel {
            PanelTypes::ViewOptions => "View Options"@,
            PanelTypes::TrainingOptions => "Training Options"@,
            PanelTypes::Presets => "Presets"@,
            PanelTypes::Stats => "Stats"@,
            PanelTypes::Rerun => "Rerun"@,
            PanelTypes::Datasets => "Datasets"@,
            PanelTypes::Dummy => ""@,
        },
{
    match panel {
        PanelTypes::ViewOptions => "View Options",
        PanelTypes::TrainingOptions => "Training Options",
        PanelTypes::Presets => "Presets",
        PanelTypes::Stats => "Stats",
        PanelTypes::Rerun => "Rerun",
        PanelTypes::Datasets => "Datasets",
        PanelTypes::Dummy => "",
    }
}

/// A control message from the user interface to the viewer.
pub enum UiControlMessage {
    LoadData(String),
    SaveSplats,
    ResetCamera,
}

/// A control message to the training loop.
#[derive(Clone, Debug)]
pub enum TrainMessage {
    Paused(bool),
    Eval { view_count: Option<usize> },
}

/// Where a dataset or scene is loaded from.
#[derive(Debug)]
pub enum DataSource {
    PickFile,
    Url(String),
}

} // verus!
