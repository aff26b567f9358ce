//! The artifacts that the import pipeline hands from stage to stage, each with
//! the mathematical view that the contracts speak of.

use vstd::prelude::*;
use crate::text::string_views;

verus! {

/// The view of an optional string.
pub open spec fn opt_view(o: Option<String>) -> Option<Seq<char>> {
    match o {
        Some(s) => Some(s@),
        None => None,
    }
}

/// The record that coordinates one run of the pipeline.
#[derive(Debug, Clone)]
pub struct ImportJob {
    pub id: String,
    pub program_id: Option<String>,
    pub status: String,
    pub source_type: String,
    pub source_files_json: String,
    pub extracted_text: String,
    pub extracted_sections_json: String,
    pub ai_analysis_json: String,
    pub generated_plan_json: String,
    pub reviewed_plan_json: Option<String>,
    pub total_pages: i64,
    pub total_tokens: i64,
    pub total_days_generated: i64,
    pub ai_model_used: String,
    pub error_message: Option<String>,
    pub error_step: Option<String>,
    pub started_at: Option<String>,
    pub completed_at: Option<String>,
    pub created_at: String,
    pub updated_at: String,
}

#[derive(Debug, Clone)]
pub struct SourceFile {
    pub file_name: String,
    pub file_path: String,
    pub file_size: u64,
}

/// A heading-delimited unit of extracted content.
#[derive(Debug, Clone)]
pub struct ExtractedSection {
    pub heading: String,
    pub level: u8,
    pub content: String,
    pub page_number: usize,
    pub has_code: bool,
    pub has_list: bool,
    pub estimated_complexity: u8,
}

pub struct ExtractedSectionView {
    pub heading: Seq<char>,
    pub level: u8,
    pub content: Seq<char>,
    pub page_number: usize,
    pub has_code: bool,
    pub has_list: bool,
    pub estimated_complexity: u8,
}

impl View for ExtractedSection {
    type V = ExtractedSectionView;

    open spec fn view(&self) -> ExtractedSectionView {
        ExtractedSectionView {
            heading: self.heading@,
            level: self.level,
            content: self.content@,
            page_number: self.page_number,
            has_code: self.has_code,
            has_list: self.has_list,
            estimated_complexity: self.estimated_complexity,
        }
    }
}

#[derive(Debug, Clone)]
pub struct CodeBlock {
    pub language: Option<String>,
    pub content: String,
    pub context_heading: String,
    pub page_number: usize,
}

pub struct CodeBlockView {
    pub language: Option<Seq<char>>,
    pub content: Seq<char>,
    pub context_heading: Seq<char>,
    pub page_number: usize,
}

impl View for CodeBlock {
    type V = CodeBlockView;

    open spec fn view(&self) -> CodeBlockView {
        CodeBlockView {
            language: opt_view(self.language),
            content: self.content@,
            context_heading: self.context_heading@,
            page_number: self.page_number,
        }
    }
}

#[derive(Debug, Clone)]
pub struct DocumentMetadata {
    pub title: Option<String>,
    pub author: Option<String>,
    pub page_count: usize,
    pub word_count: usize,
    pub detected_languages: Vec<String>,
    pub detected_topics: Vec<String>,
}

pub struct DocumentMetadataView {
    pub title: Option<Seq<char>>,
    pub author: Option<Seq<char>>,
    pub page_count: usize,
    pub word_count: usize,
    pub detected_languages: Seq<Seq<char>>,
    pub detected_topics: Seq<Seq<char>>,
}

impl View for DocumentMetadata {
    type V = DocumentMetadataView;

    open spec fn view(&self) -> DocumentMetadataView {
        DocumentMetadataView {
            title: opt_view(self.title),
            author: opt_view(self.author),
            page_count: self.page_count,
            word_count: self.word_count,
            detected_languages: string_views(self.detected_languages@),
            detected_topics: string_views(self.detected_topics@),
        }
    }
}

/// The views of a sequence of sections.
pub open spec fn section_views(v: Seq<ExtractedSection>) -> Seq<ExtractedSectionView> {
    v.map_values(|x: ExtractedSection| x@)
}

/// The views of a sequence of code blocks.
pub open spec fn code_block_views(v: Seq<CodeBlock>) -> Seq<CodeBlockView> {
    v.map_values(|x: CodeBlock| x@)
}

/// What the extractor produces from one source file.
#[derive(Debug, Clone)]
pub struct ExtractedDocument {
    pub file_name: String,
    pub total_pages: usize,
    pub raw_text: String,
    pub sections: Vec<ExtractedSection>,
    pub code_blocks: Vec<CodeBlock>,
    pub metadata: DocumentMetadata,
}

pub struct ExtractedDocumentView {
    pub file_name: Seq<char>,
    pub total_pages: usize,
    pub raw_text: Seq<char>,
    pub sections: Seq<ExtractedSectionView>,
    pub code_blocks: Seq<CodeBlockView>,
    pub metadata: DocumentMetadataView,
}

impl View for ExtractedDocument {
    type V = ExtractedDocumentView;

    open spec fn view(&self) -> ExtractedDocumentView {
        ExtractedDocumentView {
            file_name: self.file_name@,
            total_pages: self.total_pages,
            raw_text: self.raw_text@,
            sections: section_views(self.sections@),
            code_blocks: code_block_views(self.code_blocks@),
            metadata: self.metadata@,
        }
    }
}

impl ExtractedDocumentView {
    /// What holds of every extracted document: the metadata repeats the page
    /// count; no section and no code block lies on a page after the last; and
    /// the complexity of every section is between 1 and 5.
    pub open spec fn well_formed(self) -> bool {
        &&& self.metadata.page_count == self.total_pages
        &&& forall|i: int|
            0 <= i < self.sections.len() ==> (#[trigger] self.sections[i]).page_number
                <= self.total_pages
        &&& forall|i: int|
            0 <= i < self.sections.len() ==> 1 <= (
            #[trigger] self.sections[i]).estimated_complexity <= 5
        &&& forall|i: int|
            0 <= i < self.code_blocks.len() ==> (#[trigger] self.code_blocks[i]).page_number
                <= self.total_pages
    }

    /// The sections stand in the order of their pages.
    pub open spec fn in_page_order(self) -> bool {
        forall|i: int, j: int|
            0 <= i <= j < self.sections.len() ==> (#[trigger] self.sections[i]).page_number <= (
            #[trigger] self.sections[j]).page_number
    }
}

/// How a document was split into chunks.
#[derive(Debug, Clone, Copy, PartialEq, Eq, Structural)]
pub enum ChunkStrategy {
    SinglePass,
    SectionBased,
    MultiPass,
}

/// A token-bounded slice of a document's sections, sized for one request.
#[derive(Debug, Clone)]
pub struct DocumentChunk {
    pub index: usize,
    pub content: String,
    pub token_count: usize,
    pub section_refs: Vec<usize>,
    pub is_continuation: bool,
}

pub struct DocumentChunkView {
    pub index: usize,
    pub content: Seq<char>,
    pub token_count: usize,
    pub section_refs: Seq<usize>,
    pub is_continuation: bool,
}

impl View for DocumentChunk {
    type V = DocumentChunkView;

    open spec fn view(&self) -> DocumentChunkView {
        DocumentChunkView {
            index: self.index,
            content: self.content@,
            token_count: self.token_count,
            section_refs: self.section_refs@,
            is_continuation: self.is_continuation,
        }
    }
}

/// The views of a sequence of chunks.
pub open spec fn chunk_views(v: Seq<DocumentChunk>) -> Seq<DocumentChunkView> {
    v.map_values(|x: DocumentChunk| x@)
}

#[derive(Debug, Clone)]
pub struct ChunkedDocument {
    pub chunks: Vec<DocumentChunk>,
    pub total_tokens: usize,
    pub chunk_strategy: ChunkStrategy,
}

pub struct ChunkedDocumentView {
    pub chunks: Seq<DocumentChunkView>,
    pub total_tokens: usize,
    pub chunk_strategy: ChunkStrategy,
}

impl View for ChunkedDocument {
    type V = ChunkedDocumentView;

    open spec fn view(&self) -> ChunkedDocumentView {
        ChunkedDocumentView {
            chunks: chunk_views(self.chunks@),
            total_tokens: self.total_tokens,
            chunk_strategy: self.chunk_strategy,
        }
    }
}

#[derive(Debug, Clone)]
pub struct ProgramDraft {
    pub title: String,
    pub description: String,
    pub estimated_total_days: i64,
}

pub struct ProgramDraftView {
    pub title: Seq<char>,
    pub description: Seq<char>,
    pub estimated_total_days: i64,
}

impl View for ProgramDraft {
    type V = ProgramDraftView;

    open spec fn view(&self) -> ProgramDraftView {
        ProgramDraftView {
            title: self.title@,
            description: self.description@,
            estimated_total_days: self.estimated_total_days,
        }
    }
}

#[derive(Debug, Clone)]
pub struct ModuleDraft {
    pub title: String,
    pub description: String,
    pub order_index: i64,
    pub color: String,
}

pub struct ModuleDraftView {
    pub title: Seq<char>,
    pub description: Seq<char>,
    pub order_index: i64,
    pub color: Seq<char>,
}

impl View for ModuleDraft {
    type V = ModuleDraftView;

    open spec fn view(&self) -> ModuleDraftView {
        ModuleDraftView {
            title: self.title@,
            description: self.description@,
            order_index: self.order_index,
            color: self.color@,
        }
    }
}

#[derive(Debug, Clone)]
pub struct DayPlanDraft {
    pub module_index: usize,
    pub day_number: i64,
    pub title: String,
    pub syntax_targets: String,
    pub implementation_brief: String,
    pub files_to_create: String,
    pub success_criteria: String,
    pub stretch_challenge: String,
    pub notes: String,
    pub estimated_minutes: i64,
    pub memory_rebuild_minutes: i64,
    pub min_minutes: i64,
    pub recommended_minutes: i64,
    pub deep_minutes: i64,
    pub complexity_level: i64,
}

pub struct DayPlanDraftView {
    pub module_index: usize,
    pub day_number: i64,
    pub title: Seq<char>,
    pub syntax_targets: Seq<char>,
    pub implementation_brief: Seq<char>,
    pub files_to_create: Seq<char>,
    pub success_criteria: Seq<char>,
    pub stretch_challenge: Seq<char>,
    pub notes: Seq<char>,
    pub estimated_minutes: i64,
    pub memory_rebuild_minutes: i64,
    pub min_minutes: i64,
    pub recommended_minutes: i64,
    pub deep_minutes: i64,
    pub complexity_level: i64,
}

impl View for DayPlanDraft {
    type V = DayPlanDraftView;

    open spec fn view(&self) -> DayPlanDraftView {
        DayPlanDraftView {
            module_index: self.module_index,
            day_number: self.day_number,
            title: self.title@,
            syntax_targets: self.syntax_targets@,
            implementation_brief: self.implementation_brief@,
            files_to_create: self.files_to_create@,
            success_criteria: self.success_criteria@,
            stretch_challenge: self.stretch_challenge@,
            notes: self.notes@,
            estimated_minutes: self.estimated_minutes,
            memory_rebuild_minutes: self.memory_rebuild_minutes,
            min_minutes: self.min_minutes,
            recommended_minutes: self.recommended_minutes,
            deep_minutes: self.deep_minutes,
            complexity_level: self.complexity_level,
        }
    }
}

#[derive(Debug, Clone)]
pub struct ChecklistItemDraft {
    pub day_index: usize,
    pub label: String,
    pub is_required: bool,
    pub order_index: i64,
}

pub struct ChecklistItemDraftView {
    pub day_index: usize,
    pub label: Seq<char>,
    pub is_required: bool,
    pub order_index: i64,
}

impl View for ChecklistItemDraft {
    type V = ChecklistItemDraftView;

    open spec fn view(&self) -> ChecklistItemDraftView {
        ChecklistItemDraftView {
            day_index: self.day_index,
            label: self.label@,
            is_required: self.is_required,
            order_index: self.order_index,
        }
    }
}

#[derive(Debug, Clone)]
pub struct QuizQuestionDraft {
    pub day_index: usize,
    pub question_text: String,
    pub question_type: String,
    pub correct_answer: String,
    pub options: Vec<String>,
    pub points: i64,
    pub time_limit_seconds: i64,
}

pub struct QuizQuestionDraftView {
    pub day_index: usize,
    pub question_text: Seq<char>,
    pub question_type: Seq<char>,
    pub correct_answer: Seq<char>,
    pub options: Seq<Seq<char>>,
    pub points: i64,
    pub time_limit_seconds: i64,
}

impl View for QuizQuestionDraft {
    type V = QuizQuestionDraftView;

    open spec fn view(&self) -> QuizQuestionDraftView {
        QuizQuestionDraftView {
            day_index: self.day_index,
            question_text: self.question_text@,
            question_type: self.question_type@,
            correct_answer: self.correct_answer@,
            options: string_views(self.options@),
            points: self.points,
            time_limit_seconds: self.time_limit_seconds,
        }
    }
}

#[derive(Debug, Clone)]
pub struct ConceptTagDraft {
    pub name: String,
    pub domain: String,
}

pub struct ConceptTagDraftView {
    pub name: Seq<char>,
    pub domain: Seq<char>,
}

impl View for ConceptTagDraft {
    type V = ConceptTagDraftView;

    open spec fn view(&self) -> ConceptTagDraftView {
        ConceptTagDraftView { name: self.name@, domain: self.domain@ }
    }
}

#[derive(Debug, Clone)]
pub struct DependencyDraft {
    pub day_index: usize,
    pub depends_on_day_number: i64,
    pub dependency_type: String,
    pub minimum_score: i64,
}

pub struct DependencyDraftView {
    pub day_index: usize,
    pub depends_on_day_number: i64,
    pub dependency_type: Seq<char>,
    pub minimum_score: i64,
}

impl View for DependencyDraft {
    type V = DependencyDraftView;

    open spec fn view(&self) -> DependencyDraftView {
        DependencyDraftView {
            day_index: self.day_index,
            depends_on_day_number: self.depends_on_day_number,
            dependency_type: self.dependency_type@,
            minimum_score: self.minimum_score,
        }
    }
}

/// The normalized, flattened draft of a curriculum, with the warnings that
/// normalization gave rise to.
#[derive(Debug, Clone)]
pub struct GeneratedPlan {
    pub program: ProgramDraft,
    pub modules: Vec<ModuleDraft>,
    pub day_plans: Vec<DayPlanDraft>,
    pub checklist_items: Vec<ChecklistItemDraft>,
    pub quiz_questions: Vec<QuizQuestionDraft>,
    pub concept_tags: Vec<ConceptTagDraft>,
    pub tag_assignments: Vec<(usize, String)>,
    pub dependencies: Vec<DependencyDraft>,
    pub validation_warnings: Vec<String>,
}

pub struct GeneratedPlanView {
    pub program: ProgramDraftView,
    pub modules: Seq<ModuleDraftView>,
    pub day_plans: Seq<DayPlanDraftView>,
    pub checklist_items: Seq<ChecklistItemDraftView>,
    pub quiz_questions: Seq<QuizQuestionDraftView>,
    pub concept_tags: Seq<ConceptTagDraftView>,
    pub tag_assignments: Seq<(usize, Seq<char>)>,
    pub dependencies: Seq<DependencyDraftView>,
    pub validation_warnings: Seq<Seq<char>>,
}

impl View for GeneratedPlan {
    type V = GeneratedPlanView;

    open spec fn view(&self) -> GeneratedPlanView {
        GeneratedPlanView {
            program: self.program@,
            modules: module_views(self.modules@),
            day_plans: day_plan_views(self.day_plans@),
            checklist_items: checklist_views(self.checklist_items@),
            quiz_questions: quiz_views(self.quiz_questions@),
            concept_tags: tag_views(self.concept_tags@),
            tag_assignments: assignment_views(self.tag_assignments@),
            dependencies: dependency_views(self.dependencies@),
            validation_warnings: string_views(self.validation_warnings@),
        }
    }
}

/// One of `tags` has the name `name`.
pub open spec fn names_tag(tags: Seq<ConceptTagDraftView>, name: Seq<char>) -> bool {
    exists|j: int| 0 <= j < tags.len() && (#[trigger] tags[j]).name == name
}

impl GeneratedPlanView {
    /// Every position that the plan refers to exists: each day names a module
    /// of the plan, and each checklist item, question, tag assignment and
    /// dependency names a day of the plan.
    pub open spec fn indices_in_range(self) -> bool {
        &&& forall|i: int|
            0 <= i < self.day_plans.len() ==> (#[trigger] self.day_plans[i]).module_index
                < self.modules.len()
        &&& forall|i: int|
            0 <= i < self.checklist_items.len() ==> (#[trigger] self.checklist_items[i]).day_index
                < self.day_plans.len()
        &&& forall|i: int|
            0 <= i < self.quiz_questions.len() ==> (#[trigger] self.quiz_questions[i]).day_index
                < self.day_plans.len()
        &&& forall|i: int|
            0 <= i < self.tag_assignments.len() ==> (#[trigger] self.tag_assignments[i]).0
                < self.day_plans.len()
        &&& forall|i: int|
            0 <= i < self.dependencies.len() ==> (#[trigger] self.dependencies[i]).day_index
                < self.day_plans.len()
    }

    /// Every reference inside the plan resolves within it: each day names a
    /// module of the plan; each checklist item, question, tag assignment and
    /// dependency names a day of the plan; each assigned tag name is the name
    /// of one of the plan's tags; and no tag occurs twice.
    pub open spec fn well_formed(self) -> bool {
        &&& forall|i: int|
            0 <= i < self.day_plans.len() ==> (#[trigger] self.day_plans[i]).module_index
                < self.modules.len()
        &&& forall|i: int|
            0 <= i < self.checklist_items.len() ==> (#[trigger] self.checklist_items[i]).day_index
                < self.day_plans.len()
        &&& forall|i: int|
            0 <= i < self.quiz_questions.len() ==> (#[trigger] self.quiz_questions[i]).day_index
                < self.day_plans.len()
        &&& forall|i: int|
            0 <= i < self.tag_assignments.len() ==> (#[trigger] self.tag_assignments[i]).0
                < self.day_plans.len()
        &&& forall|i: int|
            0 <= i < self.tag_assignments.len() ==> names_tag(
                self.concept_tags,
                (#[trigger] self.tag_assignments[i]).1,
            )
        &&& forall|i: int|
            0 <= i < self.dependencies.len() ==> (#[trigger] self.dependencies[i]).day_index
                < self.day_plans.len()
        &&& self.concept_tags.no_duplicates()
    }
}

/// The views of a sequence of module drafts.
pub open spec fn module_views(v: Seq<ModuleDraft>) -> Seq<ModuleDraftView> {
    v.map_values(|x: ModuleDraft| x@)
}

/// The views of a sequence of day drafts.
pub open spec fn day_plan_views(v: Seq<DayPlanDraft>) -> Seq<DayPlanDraftView> {
    v.map_values(|x: DayPlanDraft| x@)
}

/// The views of a sequence of checklist drafts.
pub open spec fn checklist_views(v: Seq<ChecklistItemDraft>) -> Seq<ChecklistItemDraftView> {
    v.map_values(|x: ChecklistItemDraft| x@)
}

/// The views of a sequence of question drafts.
pub open spec fn quiz_views(v: Seq<QuizQuestionDraft>) -> Seq<QuizQuestionDraftView> {
    v.map_values(|x: QuizQuestionDraft| x@)
}

/// The views of a sequence of tag drafts.
pub open spec fn tag_views(v: Seq<ConceptTagDraft>) -> Seq<ConceptTagDraftView> {
    v.map_values(|x: ConceptTagDraft| x@)
}

/// The views of a sequence of tag assignments.
pub open spec fn assignment_views(v: Seq<(usize, String)>) -> Seq<(usize, Seq<char>)> {
    v.map_values(|x: (usize, String)| (x.0, x.1@))
}

/// The views of a sequence of dependency drafts.
pub open spec fn dependency_views(v: Seq<DependencyDraft>) -> Seq<DependencyDraftView> {
    v.map_values(|x: DependencyDraft| x@)
}

#[derive(Debug, Clone)]
pub struct ImportJobSummary {
    pub id: String,
    pub program_id: Option<String>,
    pub status: String,
    pub source_type: String,
    pub total_days_generated: i64,
    pub created_at: String,
}

/// The curriculum draft as the generative service returns it, unvalidated.
#[derive(Debug, Clone)]
pub struct AiAnalysisResponse {
    pub program_title: String,
    pub program_description: String,
    pub estimated_total_days: i64,
    pub modules: Vec<AiModuleResponse>,
}

#[derive(Debug, Clone)]
pub struct AiModuleResponse {
    pub title: String,
    pub description: String,
    pub order_index: i64,
    pub color: String,
    pub days: Vec<AiDayResponse>,
}

#[derive(Debug, Clone)]
pub struct AiDayResponse {
    pub day_number: i64,
    pub title: String,
    pub syntax_targets: String,
    pub implementation_brief: String,
    pub files_to_create: String,
    pub success_criteria: String,
    pub stretch_challenge: String,
    pub notes: String,
    pub estimated_minutes: i64,
    pub memory_rebuild_minutes: i64,
    pub checklist_items: Vec<AiChecklistItem>,
    pub quiz_questions: Vec<AiQuizQuestion>,
    pub concept_tags: Vec<AiConceptTag>,
    pub dependencies: Vec<AiDependency>,
}

#[derive(Debug, Clone)]
pub struct AiChecklistItem {
    pub label: String,
    pub is_required: bool,
}

#[derive(Debug, Clone)]
pub struct AiQuizQuestion {
    pub question_text: String,
    pub question_type: String,
    pub correct_answer: String,
    pub options: Vec<String>,
    pub points: i64,
    pub time_limit_seconds: i64,
}

#[derive(Debug, Clone)]
pub struct AiConceptTag {
    pub name: String,
    pub domain: String,
}

#[derive(Debug, Clone)]
pub struct AiDependency {
    pub depends_on_day_number: i64,
    pub dependency_type: String,
    pub minimum_score: i64,
}

} // verus!
