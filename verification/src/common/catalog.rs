//! The records of the database-backed server and of its generation events.
use crate::common::LikedState;
use vstd::prelude::*;

verus! {

/// A generated wallpaper, as the database-backed server keeps it.
#[derive(Clone, Debug)]
pub struct WallpaperData {
    pub id: u128,
    pub datetime: i64,
    pub prompt: String,
    pub shortened_prompt: String,
    pub image_file: String,
    pub image_width: u32,
    pub image_height: u32,
    /// The bit pattern of the `f32` brightness, between 0 and 1.
    pub image_brightness: u32,
    pub liked_state: LikedState,
    pub comment: Option<String>,
}

/// How far a wallpaper generation has come.
#[derive(Clone, Debug)]
pub enum GenerationStage {
    WaitingForPrompt,
    ReceivedPrompt { prompt: String },
    ReceivedImage,
    Failed { reason: String },
}

impl GenerationStage {
    /// A copy of the stage.
    pub fn duplicate(&self) -> (res: Self)
        ensures
            res == *self,
    {
        match self {
            GenerationStage::WaitingForPrompt => GenerationStage::WaitingForPrompt,
            GenerationStage::ReceivedPrompt { prompt } => GenerationStage::ReceivedPrompt {
                prompt: prompt.clone(),
            },
            GenerationStage::ReceivedImage => GenerationStage::ReceivedImage,
            GenerationStage::Failed { reason } => GenerationStage::Failed {
                reason: reason.clone(),
            },
        }
    }
}

/// A wallpaper generation in progress.
#[derive(Clone, Debug)]
pub struct GenerationEvent {
    pub id: u128,
    pub start_time: i64,
    pub stage: GenerationStage,
}

impl GenerationEvent {
    /// A copy of the event.
    pub fn duplicate(&self) -> (res: Self)
        ensures
            res == *self,
    {
        GenerationEvent { id: self.id, start_time: self.start_time, stage: self.stage.duplicate() }
    }
}

} // verus!
