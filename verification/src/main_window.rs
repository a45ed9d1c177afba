//! What the inspector and creator panels decide: which domino is shown for
//! editing, what a deletion removes, and what a creation adds and selects.

use vstd::prelude::*;
use crate::simulator::{has_id, index_of_id, next_id, Domino, Pose, Simulator};
use crate::ui_3d::UI3d;

verus! {

/// The panels' state: the 3D engine, if the graphics layer could be had.
#[derive(Clone, Copy, PartialEq, Eq, Debug, Structural)]
pub struct MainWindow {
    pub ui_3d: Option<UI3d>,
}

impl MainWindow {
    /// The id that is selected: that of the engine, and none without an engine.
    pub open spec fn spec_selected_domino_id(&self) -> Option<u32> {
        match self.ui_3d {
            Some(ui) => ui.selected_domino_id,
            None => None,
        }
    }

    /// The panels around the given engine.
    pub fn new(ui_3d: Option<UI3d>) -> (window: MainWindow)
        ensures
            window.ui_3d == ui_3d,
    {
        MainWindow { ui_3d }
    }

    /// The id that is selected.
    #[verifier::when_used_as_spec(spec_selected_domino_id)]
    pub fn selected_domino_id(&self) -> (selected: Option<u32>)
        ensures
            selected == self.spec_selected_domino_id(),
    {
        match &self.ui_3d {
            Some(ui) => ui.selected_domino_id,
            None => None,
        }
    }

    /// The pose that the inspector edits: that of the selected domino. There is
    /// none where nothing is selected or the scene no longer holds the
    /// selected id, and the inspector then shows that no domino is selected.
    pub fn inspected_domino<'a>(&self, simulator: &'a mut Simulator) -> (shown: Option<&'a mut Pose>)
        ensures
            shown is Some <==> (self.spec_selected_domino_id() matches Some(id) && has_id(
                old(simulator)@,
                id,
            )),
            shown matches Some(pose) ==> {
                let id = self.spec_selected_domino_id()->0;
                let i = index_of_id(old(simulator)@, id);
                &&& *pose == old(simulator)@[i].pose
                &&& final(simulator)@ == old(simulator)@.update(i, Domino::spec_new(id, *final(pose)))
            },
            shown is None ==> final(simulator)@ == old(simulator)@,
            old(simulator).wf() ==> final(simulator).wf(),
    {
        match self.selected_domino_id() {
            Some(id) => simulator.get_domino_mut(id),
            None => None,
        }
    }

    /// The inspector's delete button: removes the selected domino from the
    /// scene and clears the selection. Where nothing is selected, or the scene
    /// does not hold the selected id, scene and selection stay as they are.
    pub fn delete_domino(&mut self, simulator: &mut Simulator) -> (deleted: bool)
        ensures
            deleted <==> (old(self).spec_selected_domino_id() matches Some(id) && has_id(
                old(simulator)@,
                id,
            )),
            deleted ==> {
                let id = old(self).spec_selected_domino_id()->0;
                &&& final(simulator)@ == old(simulator)@.remove(index_of_id(old(simulator)@, id))
                &&& old(simulator).wf() ==> !has_id(final(simulator)@, id)
                &&& final(self).ui_3d == Some(old(self).ui_3d->0.with_selection(None))
            },
            !deleted ==> final(simulator)@ == old(simulator)@ && *final(self) == *old(self),
            old(simulator).wf() ==> final(simulator).wf(),
    {
        let selected = self.selected_domino_id();
        match selected {
            Some(id) => {
                match simulator.delete_domino(id) {
                    Some(_) => {
                        match &mut self.ui_3d {
                            Some(ui) => {
                                ui.selected_domino_id = None;
                            },
                            None => {},
                        }
                        true
                    },
                    None => false,
                }
            },
            None => false,
        }
    }

    /// The creator's button: appends a domino in the initial pose under the
    /// next id, selects it, and returns its id.
    pub fn create_domino(&mut self, simulator: &mut Simulator) -> (id: u32)
        requires
            old(self).ui_3d is Some,
            next_id(old(simulator)@) <= u32::MAX,
        ensures
            id == next_id(old(simulator)@),
            final(simulator)@ == old(simulator)@.push(Domino::spec_new(id, Pose::spec_initial())),
            old(simulator).wf() ==> final(simulator).wf(),
            final(self).ui_3d == Some(old(self).ui_3d->0.with_selection(Some(id))),
    {
        let id = simulator.create_domino();
        match &mut self.ui_3d {
            Some(ui) => {
                ui.selected_domino_id = Some(id);
            },
            None => {},
        }
        id
    }
}

} // verus!
